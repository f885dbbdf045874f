use vstd::prelude::*;
use vstd::string::StringSliceAdditionalSpecFns;

use crate::crypto::hash::H256;
use crate::crypto::keypair::{PrivateKey, PublicKey};

verus! {

pub const GROUP_ID_LENGTH: usize = 32;

/// Identifier of a group: one overlay among those that share the transport.
pub type GroupID = H256;

pub const EVENT_ID_LENGTH: usize = 32;

/// Identifier of an event.
pub type EventID = H256;

pub const APP_ID_LENGTH: usize = 32;

/// Identifier of an application.
pub type AppID = H256;

/// Address of a peer: its public key.
pub type PeerAddr = PublicKey;

/// Parameters of a local RPC call, carried through untouched.
pub type RPCParams = jsonrpc_parse::Params;

pub type BlockByte = Vec<u8>;

pub type EventByte = Vec<u8>;

pub type PeerInfoByte = Vec<u8>;

pub type LevelPermissionByte = Vec<u8>;

/// `jsonrpc_parse::Params`, a JSON value. The library never looks inside
/// one: it only hands such values on.
#[verifier::external_type_specification]
#[verifier::external_body]
pub struct ExParams(jsonrpc_parse::Params);

/// `Clone::clone` of `jsonrpc_parse::Params` (derived for the JSON value
/// behind it): the copy equals the value copied.
pub assume_specification[ <jsonrpc_parse::Params as Clone>::clone ](
    p: &jsonrpc_parse::Params,
) -> (r: jsonrpc_parse::Params)
    ensures
        r == *p,
;

/// Where a datagram or an RPC connection comes from or goes to: an IPv4 or
/// IPv6 address with a port (and, for IPv6, the flow information and the
/// scope). The library never looks inside one.
#[derive(Clone, Copy, Debug, PartialEq, Eq, Hash)]
pub enum SocketAddress {
    V4([u8; 4], u16),
    V6([u8; 16], u16, u32, u32),
}

/// `bincode::serialize` on a string slice, with the crate's default
/// configuration: the length of the UTF-8 text as eight little-endian bytes,
/// then the text. With no size limit set and a vector to write into, the
/// call has no way to fail.
#[verifier::external_body]
fn bincode_str(symbol: &str) -> (out: Vec<u8>)
    ensures
        out@ == str_encoding(symbol),
{
    bincode::serialize(symbol).unwrap_or_default()
}

/// How a string is laid out ahead of being hashed: the length of its UTF-8
/// text as eight little-endian bytes, then the text.
pub open spec fn str_encoding(symbol: &str) -> Seq<u8> {
    vstd::bytes::spec_u64_to_le_bytes(symbol.spec_bytes().len() as u64) + symbol.spec_bytes()
}

/// An application: a symbol, its owner, and the identifier derived from
/// the two.
#[derive(Debug, Clone)]
pub struct App<'a> {
    id: AppID,
    symbol: &'a str,
    owner: PublicKey,
}

impl<'a> App<'a> {
    /// The bytes whose hash identifies the application with this symbol and
    /// owner: the encoded symbol, then the owner's key.
    pub open spec fn preimage_spec(symbol: &str, owner: PublicKey) -> Seq<u8> {
        str_encoding(symbol) + owner@
    }

    /// The bytes to hash for the identifier of an application.
    pub fn preimage(symbol: &str, owner: &PublicKey) -> (data: Vec<u8>)
        ensures
            data@ == Self::preimage_spec(symbol, *owner),
    {
        let mut data = bincode_str(symbol);
        let key = owner.to_bytes();
        crate::p2p::codec::extend(&mut data, key.as_slice());
        data
    }

    /// An application with the given identifier, which the caller has
    /// computed as the hash of `preimage(symbol, owner)`.
    pub fn new(id: AppID, symbol: &'a str, owner: PublicKey) -> (app: Self)
        ensures
            app.spec_id() == id,
            app.spec_symbol() == symbol,
            app.spec_owner() == owner,
    {
        App { id, symbol, owner }
    }

    pub closed spec fn spec_id(&self) -> AppID {
        self.id
    }

    pub closed spec fn spec_symbol(&self) -> &'a str {
        self.symbol
    }

    pub closed spec fn spec_owner(&self) -> PublicKey {
        self.owner
    }

    /// The application's identifier.
    pub fn id(&self) -> (id: &AppID)
        ensures
            *id == self.spec_id(),
    {
        &self.id
    }

    /// The application's symbol.
    pub fn symbol(&self) -> (symbol: &'a str)
        ensures
            symbol == self.spec_symbol(),
    {
        self.symbol
    }

    /// The application's owner.
    pub fn owner(&self) -> (owner: &PublicKey)
        ensures
            *owner == self.spec_owner(),
    {
        &self.owner
    }
}

/// The key pair of the local peer.
#[derive(Clone, Debug)]
pub struct NetworkPeer {
    pk: PublicKey,
    psk: PrivateKey,
}

impl NetworkPeer {
    pub closed spec fn public_key(&self) -> PublicKey {
        self.pk
    }

    pub closed spec fn private_key(&self) -> PrivateKey {
        self.psk
    }

    /// The peer that holds this pair of keys.
    pub fn new(pk: PublicKey, psk: PrivateKey) -> (peer: NetworkPeer)
        ensures
            peer.public_key() == pk,
            peer.private_key() == psk,
    {
        NetworkPeer { pk, psk }
    }

    /// The peer's public key, which is its address.
    pub fn pk(&self) -> (k: &PublicKey)
        ensures
            *k == self.public_key(),
    {
        &self.pk
    }

    /// The peer's private key.
    pub fn psk(&self) -> (k: &PrivateKey)
        ensures
            *k == self.private_key(),
    {
        &self.psk
    }

    /// Reads a public key from exactly 32 bytes.
    pub fn public_key_from_bytes(bytes: &[u8]) -> (r: Option<PublicKey>)
        ensures
            r.is_some() <==> bytes@.len() == 32,
            r.is_some() ==> r.unwrap()@ == bytes@,
    {
        PublicKey::from_bytes(bytes)
    }

    /// The bytes of a public key.
    pub fn public_key_to_bytes(pk: &PublicKey) -> (out: Vec<u8>)
        ensures
            out@ == pk@,
    {
        let bytes = pk.to_bytes();
        vstd::slice::slice_to_vec(bytes.as_slice())
    }

    /// Reads a private key from its bytes; an empty input is refused.
    pub fn private_key_from_bytes(bytes: &[u8]) -> (r: Option<PrivateKey>)
        ensures
            r.is_some() <==> bytes@.len() > 0,
            r.is_some() ==> r.unwrap()@ == bytes@,
    {
        PrivateKey::from_bytes(bytes)
    }

    /// The bytes of a private key.
    pub fn private_key_to_bytes(psk: &PrivateKey) -> (out: Vec<u8>)
        ensures
            out@ == psk@,
    {
        psk.to_bytes()
    }
}

impl Default for NetworkPeer {
    fn default() -> (peer: NetworkPeer)
        ensures
            peer.public_key()@ == Seq::new(32, |i: int| 0u8),
            peer.private_key()@ == Seq::<u8>::empty(),
    {
        NetworkPeer { pk: PublicKey::default(), psk: PrivateKey::default() }
    }
}

} // verus!
