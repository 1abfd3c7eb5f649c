//! A chain-state engine for a peer-to-peer blockchain participant.

pub mod accounts;
pub mod block;
pub mod chain;
pub mod digest;
pub mod laws;
pub mod nodes;
pub mod traits;
