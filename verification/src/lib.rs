//! Client runtime for a server-driven UI framework: a secure session layer
//! (key exchange and authenticated encryption of message envelopes) and a
//! tree-reconciliation engine that turns a previous and a new declarative
//! element tree into a minimal list of live-document operations.

pub mod connection;
pub mod error;
pub mod json;
pub mod utils;
pub mod vdom;
