//! The tools of the local agent.

pub mod grep;
pub mod laws;
pub mod plan;
pub mod registry;
pub mod results;
