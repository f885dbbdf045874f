//! Messages between the bridge and its handlers, with and without the
//! leading group identifier.

pub mod bridge_message;
pub mod multiple_bridge_message;
