//! Supervision core for short-lived remote-terminal-sharing sessions.
//!
//! The crate manages a registry of running sessions, the per-session
//! line-buffering state machine that turns raw output chunks into a
//! fixed-height display window, the expiry decisions of the reader loop,
//! and the bulk-close protocol over the registry.

pub mod aggregator;
pub mod detector;
pub mod gatekeeper;
pub mod line_buffer;
pub mod listing;
pub mod reader;
pub mod registry;
pub mod render;
pub mod session;
pub mod text;

use vstd::prelude::*;

verus! {

/// A dispatchable request: anything the event layer can hand to a
/// handler table.  `key` selects the handler; `requester` names who
/// asked, for the operator's log.
pub trait ExecutableArg {
    fn key(&self) -> String;

    fn requester(&self) -> String;
}

} // verus!
