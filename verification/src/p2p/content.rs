use vstd::prelude::*;

use crate::primitives::types::{EventByte, PeerAddr, PeerInfoByte};

verus! {

/// What a frame's body says.
#[derive(Clone, Debug)]
pub enum P2PContent {
    /// Are you there?
    Ping,
    /// I am.
    Pong,
    /// A request to join, with what the peer tells about itself.
    Hello(PeerInfoByte),
    /// The answer to a join request: whether the peer may join, and other
    /// peers it can turn to.
    HelloResult(bool, Vec<PeerAddr>),
    /// The peer leaves.
    Bye,
    /// An application's payload.
    Event(EventByte),
    /// Stands for a body that could not be read.
    Invalid,
}

impl P2PContent {
    /// The content of a frame whose body was read with the given outcome: what
    /// was read, or `Invalid` for a body that could not be read.
    pub fn or_invalid(decoded: Option<P2PContent>) -> (content: P2PContent)
        ensures
            content == match decoded {
                Some(c) => c,
                None => P2PContent::Invalid,
            },
    {
        match decoded {
            Some(c) => c,
            None => P2PContent::Invalid,
        }
    }
}

/// A frame's body as it is serialized.
#[derive(Clone, Debug)]
pub struct P2PBody(pub P2PContent);

} // verus!
