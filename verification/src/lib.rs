//! A gossip-based broadcast node for a simulated message-passing cluster.
//!
//! Nodes agree, eventually, on the set of values that clients asked any of
//! them to broadcast. They talk in envelopes ([`message`]) stamped by an
//! outbox ([`service`]). A node starts with a handshake and then routes
//! every decoded line to its handlers ([`session`]). The engine
//! ([`broadcast`]) keeps the values a node has learned and what it believes
//! each peer to know, and builds the gossip: everything new to a peer, and
//! a random choice ([`resend`]) of what the peer knows already.
//!
//! The library reads and writes nothing. All of it is verified but the one
//! call that draws a random number, whose contract is trusted. What holds
//! of the engine in general is stated in [`laws`], [`convergence`] and
//! [`fairness`].

pub mod broadcast;
pub mod convergence;
pub mod error;
pub mod fairness;
pub mod laws;
pub mod message;
pub mod node;
mod random;
pub mod resend;
pub mod service;
pub mod session;
