//! Coordinator for multi-party computation protocols.
//!
//! The crate holds the in-memory coordination engine: the registry of
//! clients, groups and sessions, the request handlers that drive membership
//! transitions, and the planning of the frames that a request sends to its
//! caller and to the caller's peers.
//!
//! The functions are verified against their contracts. What is taken on
//! trust are the calls into other crates: the drawing of a fresh identifier
//! and its text in `id`, and the copy of a JSON value in `state::session`.

pub mod id;
pub mod server;
pub mod service;
pub mod state;
pub mod text;
