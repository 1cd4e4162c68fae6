//! Shared sessions: one participant shares a terminal, others watch it and, one at a time, control
//! it.

pub mod broker;
pub mod laws;
pub mod protocol;
pub mod shared;
