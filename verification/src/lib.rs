//! Block construction and best-depth block synchronisation for a
//! peer-to-peer chain node.
//!
//! `chain` holds the one-shot transactional block builder, `traits` the
//! capabilities it is built over, and `network` the peer view, the message
//! codec, the synchronisation engine and one scheduling step of the loop
//! that drives them.

pub mod traits;
pub mod chain;
pub mod network;
