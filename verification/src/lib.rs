//! Multi-group peer-to-peer networking substrate: wire codec, routing bridge
//! and per-group adapter, with machine-checked contracts.

pub mod crypto;
pub mod multiple_bridge;
pub mod network_bridge;
pub mod p2p;
pub mod primitives;
pub mod traits;
