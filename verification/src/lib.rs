//! A local agent service with a terminal: verified logic, free of input and output.

use vstd::prelude::*;

pub mod account;
pub mod agent_api;
pub mod agent_state;
pub mod chat;
pub mod clock;
pub mod discovery;
pub mod graphql;
pub mod ids;
pub mod json;
pub mod llm_config;
pub mod local_agent;
pub mod pane_group;
pub mod paths;
pub mod pty;
pub mod runs;
pub mod server;
pub mod session;
pub mod terminal;
pub mod text;
pub mod text_map;
pub mod tools;

verus! {

} // verus!
