//! The pure decision core: state snapshot, actions, eligibility and the planner.

pub mod actions;
pub mod filters;
pub mod laws;
pub mod planner;
pub mod state;
