//! A peer-to-peer overlay whose nodes are named by secp256k1 public keys.
//!
//! Clients reach each other through federated relay servers. Every request
//! and response travels in a signed envelope; servers index the clients
//! connected to them, the clients they have heard of elsewhere and their
//! peers, answer lookups with the peers closest to a key, and keep inboxes
//! of messages for clients to poll.

pub mod crypto;
pub mod text;
pub mod codec;
pub mod types;
pub mod address;
pub mod envelope;
pub mod router;
pub mod inbox;
pub mod message;
pub mod requests;
pub mod server;
pub mod traversal;
pub mod standard;
pub mod client;
