//! Verified core logic of a small collection of tools: a cooperative task
//! scheduler, a terminal chat client's state machine, two task-manager
//! command lines, and the rules of a few derive and attribute helpers.

pub mod text;
pub mod executor;
pub mod chat;
pub mod cli;
pub mod derive_helpers;
pub mod samples;
