//! Verified core of a command-line client for the Todoist task service.
//!
//! The library holds what the client decides and computes: the filter query
//! built from the command-line components, the parsing and display of due
//! dates, the ordering of listed tasks, the request targets, the stored task
//! list format and the handling of the stored API token.  Reading the
//! terminal, the network, the OS keychain and the disk is left to the caller.

pub mod text;
pub mod filter;
pub mod due;
pub mod api;
pub mod sync;
pub mod tasks;
