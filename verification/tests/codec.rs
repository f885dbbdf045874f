use teatree::crypto::hash::H256;
use teatree::crypto::keypair::{PublicKey, Signature};
use teatree::p2p::codec::{
    decode_datagram, encode_frame, signing_payload, P2PCodec, P2PHead, HEAD_LENGTH,
};

fn gid(b: u8) -> H256 {
    H256::from_bytes(&[b; 32]).unwrap()
}

fn key(b: u8) -> PublicKey {
    PublicKey::from_bytes(&[b; 32]).unwrap()
}

fn sample_head() -> P2PHead {
    let mut head = P2PHead::new(0x0102, gid(0x11), key(0x22), key(0x33));
    head.update_len(0x0a0b0c0d);
    head.update_signature(Signature::from_bytes(&[0x44; 64]).unwrap());
    head
}

fn fragment(prev: u64, me: u64, next: u64, payload: &[u8]) -> Vec<u8> {
    let mut out = Vec::new();
    out.extend_from_slice(&prev.to_be_bytes());
    out.extend_from_slice(&me.to_be_bytes());
    out.extend_from_slice(&next.to_be_bytes());
    out.extend_from_slice(payload);
    out
}

#[test]
fn head_layout_is_big_endian_and_fixed() {
    let bytes = sample_head().encode();
    assert_eq!(bytes.len(), 166);
    assert_eq!(HEAD_LENGTH, 166);
    assert_eq!(&bytes[0..4], &[0x0a, 0x0b, 0x0c, 0x0d]);
    assert_eq!(&bytes[4..6], &[0x01, 0x02]);
    assert_eq!(&bytes[6..38], &[0x11; 32]);
    assert_eq!(&bytes[38..70], &[0x22; 32]);
    assert_eq!(&bytes[70..102], &[0x33; 32]);
    assert_eq!(&bytes[102..166], &[0x44; 64]);
}

#[test]
fn head_round_trip() {
    let head = sample_head();
    let back = P2PHead::decode(&head.encode());
    assert_eq!(back.len(), 0x0a0b0c0d);
    assert_eq!(back.version(), 0x0102);
    assert!(*back.group() == gid(0x11));
    assert!(*back.from() == key(0x22));
    assert!(*back.to() == key(0x33));
    assert!(*back.signature() == Signature::from_bytes(&[0x44; 64]).unwrap());
    assert_eq!(back.encode(), head.encode());
}

#[test]
fn head_decode_reads_integers_most_significant_byte_first() {
    let mut bytes = [0u8; 166];
    bytes[3] = 1;
    bytes[5] = 2;
    let head = P2PHead::decode(&bytes);
    assert_eq!(head.len(), 1);
    assert_eq!(head.version(), 2);
    bytes[0] = 1;
    bytes[4] = 1;
    let head = P2PHead::decode(&bytes);
    assert_eq!(head.len(), 0x0100_0001);
    assert_eq!(head.version(), 0x0102);
}

#[test]
fn new_head_is_unsized_and_unsigned() {
    let head = P2PHead::new(7, gid(1), key(2), key(3));
    assert_eq!(head.len(), 0);
    assert_eq!(head.version(), 7);
    assert_eq!(head.ver, 7);
    assert!(*head.signature() == Signature::default());
    assert_eq!(head.signature().to_bytes(), [0u8; 64]);
}

#[test]
fn default_head_is_all_zero() {
    let head = P2PHead::default();
    assert_eq!(head.encode(), [0u8; 166]);
}

#[test]
fn frame_round_trip() {
    let mut head = sample_head();
    let body = vec![0xde, 0xad, 0xbe, 0xef];
    let bytes = encode_frame(&mut head, &body);
    assert_eq!(bytes.len(), 170);
    assert_eq!(head.len(), 4);
    let (h, b) = decode_datagram(&bytes).unwrap();
    assert_eq!(h.encode(), head.encode());
    assert_eq!(b, body);
}

#[test]
fn frame_with_empty_body() {
    let mut head = sample_head();
    let bytes = encode_frame(&mut head, &[]);
    assert_eq!(bytes.len(), 166);
    let (h, b) = decode_datagram(&bytes).unwrap();
    assert_eq!(h.len(), 0);
    assert!(b.is_empty());
}

#[test]
fn trailing_bytes_belong_to_the_next_frame() {
    let mut head = sample_head();
    let mut bytes = encode_frame(&mut head, &[1, 2, 3]);
    bytes.extend_from_slice(&[9, 9, 9, 9]);
    let (h, b) = decode_datagram(&bytes).unwrap();
    assert_eq!(h.len(), 3);
    assert_eq!(b, vec![1, 2, 3]);
}

#[test]
fn short_datagram_holds_no_frame() {
    assert!(decode_datagram(&[]).is_none());
    assert!(decode_datagram(&[0u8; 165]).is_none());
    assert!(decode_datagram(&[0u8; 166]).is_some());
}

#[test]
fn truncated_body_holds_no_frame() {
    let mut head = sample_head();
    let bytes = encode_frame(&mut head, &[7u8; 10]);
    for n in 0..bytes.len() {
        assert!(decode_datagram(&bytes[..n]).is_none());
    }
    assert!(decode_datagram(&bytes).is_some());
}

#[test]
fn corrupt_body_length_yields_nothing() {
    let mut head = sample_head();
    head.update_len(10);
    let mut datagram = head.encode().to_vec();
    datagram.extend_from_slice(&[1, 2, 3, 4]);
    assert!(decode_datagram(&datagram).is_none());
}

#[test]
fn signing_payload_leaves_the_signature_out() {
    let mut head = sample_head();
    let body = vec![5u8, 6, 7];
    let payload = signing_payload(&mut head, &body);
    assert_eq!(head.len(), 3);
    assert_eq!(payload.len(), 102 + 3);
    assert_eq!(&payload[..102], &head.encode()[..102]);
    assert_eq!(&payload[102..], &body[..]);
}

#[test]
fn tampering_changes_the_signed_bytes() {
    let mut head = sample_head();
    let a = signing_payload(&mut head, &[1, 2, 3]);
    let b = signing_payload(&mut head, &[1, 2, 4]);
    assert_ne!(a, b);
}

#[test]
fn codec_drops_a_fragment_without_tags() {
    let mut codec = P2PCodec::default();
    assert!(codec.decode(&[0u8; 23]).is_none());
    assert!(codec.decode(&[0u8; 16]).is_none());
    assert_eq!(codec.pending(), 0);
}

#[test]
fn codec_emits_a_whole_frame_from_one_head_fragment() {
    let mut head = sample_head();
    let body = vec![1u8, 2, 3, 4, 5];
    let bytes = encode_frame(&mut head, &body);
    let mut codec = P2PCodec::default();
    let (h, b) = codec.decode(&fragment(7, 7, 8, &bytes)).unwrap();
    assert_eq!(h.encode(), head.encode());
    assert_eq!(b, body);
    assert_eq!(codec.pending(), 0);
}

#[test]
fn codec_keeps_a_fragment_that_does_not_head_its_chain() {
    let mut head = sample_head();
    let bytes = encode_frame(&mut head, &[1, 2, 3]);
    let mut codec = P2PCodec::default();
    assert!(codec.decode(&fragment(6, 7, 8, &bytes)).is_none());
    assert_eq!(codec.pending(), 1);
    assert!(codec.evict(&7u64.to_be_bytes()));
    assert_eq!(codec.pending(), 0);
}

#[test]
fn codec_joins_fragments_in_order() {
    let mut head = sample_head();
    let body: Vec<u8> = (0..=255u8).cycle().take(1000).collect();
    let bytes = encode_frame(&mut head, &body);
    let mut codec = P2PCodec::default();
    assert!(codec.decode(&fragment(1, 1, 1, &bytes[..100])).is_none());
    assert_eq!(codec.pending(), 1);
    assert!(codec.decode(&fragment(1, 1, 1, &bytes[100..600])).is_none());
    assert_eq!(codec.pending(), 1);
    let (h, b) = codec.decode(&fragment(1, 1, 1, &bytes[600..])).unwrap();
    assert_eq!(h.len(), 1000);
    assert_eq!(b, body);
    assert_eq!(codec.pending(), 0);
}

#[test]
fn codec_joins_a_tail_that_came_first() {
    let mut head = sample_head();
    let body = vec![9u8; 300];
    let bytes = encode_frame(&mut head, &body);
    let mut codec = P2PCodec::default();
    // the tail arrives first and waits under its own tag
    assert!(codec.decode(&fragment(1, 2, 2, &bytes[200..])).is_none());
    assert_eq!(codec.pending(), 1);
    // the head names the tail as its successor
    let (h, b) = codec.decode(&fragment(1, 1, 2, &bytes[..200])).unwrap();
    assert_eq!(h.len(), 300);
    assert_eq!(b, body);
    assert_eq!(codec.pending(), 0);
}

#[test]
fn codec_tags_are_read_as_whole_eight_bytes() {
    let mut codec = P2PCodec::default();
    // two tags that differ in their first byte only
    assert!(codec.decode(&fragment(0, 0x0100_0000_0000_0005, 0, &[1, 2, 3])).is_none());
    assert!(codec.decode(&fragment(0, 0x0200_0000_0000_0005, 0, &[4, 5, 6])).is_none());
    assert_eq!(codec.pending(), 2);
    assert!(!codec.evict(&5u64.to_be_bytes()));
    assert!(codec.evict(&0x0100_0000_0000_0005u64.to_be_bytes()));
    assert_eq!(codec.pending(), 1);
}

#[test]
fn corrupt_fragment_waits_until_it_is_evicted() {
    let mut head = sample_head();
    head.update_len(10);
    let mut data = head.encode().to_vec();
    data.extend_from_slice(&[1, 2, 3, 4]);
    let mut codec = P2PCodec::default();
    assert!(codec.decode(&fragment(3, 3, 3, &data)).is_none());
    assert_eq!(codec.pending(), 1);
    codec.clear();
    assert_eq!(codec.pending(), 0);
}
