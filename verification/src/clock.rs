//! The time.

use vstd::prelude::*;

verus! {

/// `chrono::Utc::now` and `to_rfc3339` give the time as a text. Nothing is known of it.
#[verifier::external_body]
pub(crate) fn now_rfc3339() -> String {
    chrono::Utc::now().to_rfc3339()
}

} // verus!
