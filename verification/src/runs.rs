//! Runs of the agent: those that this machine does for others, and those that others do for it.

use vstd::prelude::*;

pub mod cloud;
pub mod events;
pub mod laws;
pub mod relay;
pub mod worker;

verus! {

/// Why a request is refused: the status of the answer, and what it says.
#[derive(Debug)]
pub struct Refusal {
    pub status: u16,
    pub message: String,
}

/// Whether a refusal has a status and says a text.
pub open spec fn is_refusal(refusal: Refusal, status: u16, message: Seq<char>) -> bool {
    refusal.status == status && refusal.message@ == message
}

pub(crate) fn refuse(status: u16, message: &str) -> (refusal: Refusal)
    ensures
        is_refusal(refusal, status, message@),
{
    Refusal { status, message: message.to_owned() }
}

} // verus!
