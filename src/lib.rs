//! Commit-message generation: convention resolution, prompt assembly,
//! provider decisions, candidate parsing and the selection loop.

pub mod candidates;
pub mod cli;
pub mod config;
pub mod convention;
pub mod json;
pub mod prompt;
pub mod provider;
pub mod selection;
pub mod session;
pub mod text;
