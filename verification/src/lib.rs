//! A minimal runtime for message-passing distributed-systems nodes that talk
//! to an external harness, together with the node state machines built on it:
//! an echo responder, a unique-id generator, and a gossip broadcast node.
//!
//! The wire transport (line-delimited JSON on stdin/stdout) and the thread
//! plumbing live outside this crate; everything here is pure state-machine
//! logic: each node consumes one event at a time and returns the envelopes it
//! wants sent.

pub mod broadcast;
pub mod convergence;
pub mod echo;
pub mod echo_server;
pub mod protocol;
pub mod single_broadcast;
pub mod unique;
