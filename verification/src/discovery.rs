//! Finding other machines that can work for the user.

use vstd::prelude::*;

pub mod bonjour;
pub mod laws;
pub mod probe;
pub mod workers;

verus! {

} // verus!
