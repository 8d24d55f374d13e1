//! Grindbot: the decision core of an autonomous issue-implementation supervisor.

pub mod config;
pub mod doctor;
pub mod handoff;
pub mod io;
pub mod kernel;
pub mod merge_lock;
pub mod merge_flow;
pub mod prompt;
pub mod state_file;
pub mod status;
pub mod supervisor;
pub mod text;
pub mod workspace;
