//! Value types for hashes and key material.

pub mod hash;
pub mod keypair;
pub mod order;
