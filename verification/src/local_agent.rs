//! Requests that hand work to an agent.

pub mod handoff;
