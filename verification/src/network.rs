//! Peer discovery, gossip and best-depth synchronisation.

pub mod message;
pub mod behaviour;
pub mod sync;
pub mod event_loop;
