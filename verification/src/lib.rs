//! The decision logic of a small Raft node: terms, votes, elections and
//! heartbeats, as a state machine that a runtime drives with packets and
//! timer events.

pub mod address;
pub mod connection;
pub mod election;
pub mod config;
pub mod server;
pub mod laws;
