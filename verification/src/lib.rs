//! Typed access to tmux: what is asked of a server, and what its answers mean.
//!
//! A [`server::Server`] names an endpoint. Its methods write the commands that
//! a tmux client runs, and read the listings that it prints into snapshots of
//! sessions, windows, panes and clients. Snapshots are filtered with the typed
//! expressions of [`query`], which travel as JSON documents.
//!
//! Nothing here runs a process: commands are values, and answers are bytes.

use vstd::prelude::*;

pub mod client;
pub mod command;
pub mod creation;
pub mod decimal;
pub mod error;
pub mod formats;
pub mod json;
pub mod listing;
pub mod output;
pub mod pane;
pub mod query;
pub mod server;
pub mod session;
pub mod snapshot;
pub mod target;
pub mod text;
pub mod version;
pub mod window;

verus! {

} // verus!
