use teatree::crypto::hash::H256;
use teatree::crypto::keypair::{PrivateKey, PublicKey, Signature};
use teatree::primitives::types::{App, NetworkPeer};

#[test]
fn hash_bytes_round_trip() {
    let bytes: Vec<u8> = (0..32u8).collect();
    let h = H256::from_bytes(&bytes).unwrap();
    assert_eq!(h.to_bytes().to_vec(), bytes);
    assert!(H256::from_bytes(&bytes[..31]).is_none());
    assert!(H256::from_bytes(&[0u8; 33]).is_none());
    assert!(H256::from_bytes(&[]).is_none());
}

#[test]
fn hash_equality_is_bytewise() {
    let a = H256::from_bytes(&[1; 32]).unwrap();
    let mut other = [1u8; 32];
    other[31] = 2;
    let b = H256::from_bytes(&other).unwrap();
    assert!(a == a);
    assert!(a != b);
    assert!(H256::default() == H256::zero());
    assert_eq!(H256::default().to_bytes(), [0u8; 32]);
}

#[test]
fn key_bytes_round_trip() {
    let bytes: Vec<u8> = (100..132u8).collect();
    let k = PublicKey::from_bytes(&bytes).unwrap();
    assert_eq!(k.to_bytes().to_vec(), bytes);
    assert!(PublicKey::from_bytes(&bytes[1..]).is_none());
    assert!(k == PublicKey::from_bytes(&bytes).unwrap());
    assert!(k != PublicKey::default());
    assert_eq!(PublicKey::default().to_bytes(), [0u8; 32]);
}

#[test]
fn signature_bytes_round_trip() {
    let bytes: Vec<u8> = (0..64u8).collect();
    let s = Signature::from_bytes(&bytes).unwrap();
    assert_eq!(s.to_bytes().to_vec(), bytes);
    assert!(Signature::from_bytes(&bytes[..63]).is_none());
    assert!(Signature::from_bytes(&[0u8; 65]).is_none());
    assert!(s != Signature::default());
    assert_eq!(Signature::default().to_bytes(), [0u8; 64]);
}

#[test]
fn private_key_keeps_its_bytes() {
    let k = PrivateKey::from_bytes(&[1, 2, 3]).unwrap();
    assert_eq!(k.to_bytes(), vec![1, 2, 3]);
    assert!(PrivateKey::from_bytes(&[]).is_none());
    assert!(PrivateKey::default().to_bytes().is_empty());
}

#[test]
fn network_peer_holds_its_keys() {
    let pk = PublicKey::from_bytes(&[5; 32]).unwrap();
    let psk = PrivateKey::from_bytes(&[6; 64]).unwrap();
    let peer = NetworkPeer::new(pk, psk);
    assert!(*peer.pk() == pk);
    assert_eq!(peer.psk().to_bytes(), vec![6u8; 64]);
    assert_eq!(NetworkPeer::public_key_to_bytes(peer.pk()), vec![5u8; 32]);
    assert_eq!(NetworkPeer::private_key_to_bytes(peer.psk()), vec![6u8; 64]);
    assert!(NetworkPeer::public_key_from_bytes(&[5; 32]).unwrap() == pk);
    assert!(NetworkPeer::public_key_from_bytes(&[5; 31]).is_none());
    assert_eq!(NetworkPeer::private_key_from_bytes(&[1, 2]).unwrap().to_bytes(), vec![1, 2]);
    assert!(NetworkPeer::private_key_from_bytes(&[]).is_none());
    assert!(*NetworkPeer::default().pk() == PublicKey::default());
}

#[test]
fn app_preimage_is_length_text_owner() {
    let owner = PublicKey::from_bytes(&[0xab; 32]).unwrap();
    let data = App::preimage("tea", &owner);
    let mut expected = vec![3u8, 0, 0, 0, 0, 0, 0, 0, b't', b'e', b'a'];
    expected.extend_from_slice(&[0xab; 32]);
    assert_eq!(data, expected);
}

#[test]
fn app_preimage_counts_utf8_bytes() {
    let owner = PublicKey::default();
    let data = App::preimage("é", &owner);
    assert_eq!(&data[..10], &[2, 0, 0, 0, 0, 0, 0, 0, 0xc3, 0xa9]);
    assert_eq!(data.len(), 8 + 2 + 32);
    let empty = App::preimage("", &owner);
    assert_eq!(empty, vec![0u8; 40]);
}

#[test]
fn app_new_keeps_what_it_is_given() {
    let owner = PublicKey::from_bytes(&[1; 32]).unwrap();
    let id = H256::from_bytes(&[2; 32]).unwrap();
    let app = App::new(id, "tea", owner);
    let copy = app.clone();
    assert_eq!(format!("{:?}", app), format!("{:?}", copy));
}

#[test]
fn identifiers_order_bytewise() {
    let low = H256::from_bytes(&[1; 32]).unwrap();
    let mut bytes = [1u8; 32];
    bytes[31] = 2;
    let mid = H256::from_bytes(&bytes).unwrap();
    let mut bytes = [1u8; 32];
    bytes[0] = 2;
    let high = H256::from_bytes(&bytes).unwrap();
    assert!(low < mid);
    assert!(mid < high);
    assert!(low < high);
    assert!(!(high < low));
    assert_eq!(low.partial_cmp(&low), Some(std::cmp::Ordering::Equal));
    assert_eq!(high.partial_cmp(&mid), Some(std::cmp::Ordering::Greater));
    assert_eq!(low.partial_cmp(&mid), Some(low.cmp(&mid)));
    assert_eq!(high.partial_cmp(&mid), Some(high.cmp(&mid)));
    let mut sorted = vec![high, low, mid];
    sorted.sort();
    assert!(sorted[0] == low && sorted[1] == mid && sorted[2] == high);
}

#[test]
fn peer_addresses_order_bytewise() {
    let a = PublicKey::from_bytes(&[0x10; 32]).unwrap();
    let mut bytes = [0x10u8; 32];
    bytes[16] = 0xff;
    let b = PublicKey::from_bytes(&bytes).unwrap();
    assert!(a < b);
    assert!(b > a);
    assert_eq!(a.partial_cmp(&b), Some(a.cmp(&b)));
    assert_eq!(b.partial_cmp(&a), Some(b.cmp(&a)));
    assert_eq!(a.partial_cmp(&a), Some(std::cmp::Ordering::Equal));
}

#[test]
fn app_getters() {
    let owner = PublicKey::from_bytes(&[1; 32]).unwrap();
    let id = H256::from_bytes(&[2; 32]).unwrap();
    let app = App::new(id, "tea", owner);
    assert!(*app.id() == id);
    assert_eq!(app.symbol(), "tea");
    assert!(*app.owner() == owner);
}
