//! The peer-to-peer plane: frame layout, datagram reassembly and the session
//! that turns queued frames into datagrams.

pub mod codec;
pub mod content;
pub mod p2p;
pub mod session;
