//! A group-chat participant: the routing and trigger engine of a bot that
//! sits in multi-user chat rooms, learns from what it reads and answers now
//! and then.
//!
//! The crate holds the decisions only. Reading the network, the clock and the
//! message log is left to the program around it, which hands events in and
//! carries the returned actions out.

pub mod chains;
pub mod clock;
pub mod config;
pub mod dice;
pub mod laws;
pub mod policy;
pub mod pool;
pub mod registry;
pub mod replay;
pub mod reply;
pub mod room;
pub mod router;
pub mod text;
pub mod trigger;
