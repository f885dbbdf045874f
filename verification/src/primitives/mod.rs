//! Identifiers, bit strings and the other plain values that the planes share.

pub mod binary;
pub mod functions;
pub mod types;
