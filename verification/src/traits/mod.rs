//! The message ontology that the planes and the handlers share.

pub mod message;
