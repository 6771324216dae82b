//! Peer-to-peer group chat session library: rendezvous-ticket codec, message
//! envelope protocol, identity resolution, session bootstrap, group directory
//! and identity store.

pub mod menu;
pub mod directory;
pub mod error;
pub mod key;
pub mod message;
pub mod peer;
pub mod reception;
pub mod session;
pub mod store;
pub mod ticket;
pub mod user;
