//! Tests of the codec layer: round trips, determinism, and rejection of
//! malformed bytes.

use fvm::codec::{from_slice_addresses, from_slice_cids, to_vec_addresses, to_vec_cids};
use fvm::types::{Address, Cid, Protocol};

#[test]
fn address_list_round_trips() {
    let addrs = vec![
        Address { protocol: Protocol::Id, payload: 1 },
        Address { protocol: Protocol::Secp256k1, payload: 0xdead },
        Address { protocol: Protocol::Actor, payload: u64::MAX },
        Address { protocol: Protocol::Bls, payload: 0 },
    ];
    let bytes = to_vec_addresses(&addrs).unwrap();
    let back = from_slice_addresses(bytes.as_slice()).unwrap();
    assert_eq!(back, addrs);
}

#[test]
fn empty_address_list_round_trips() {
    let addrs: Vec<Address> = Vec::new();
    let bytes = to_vec_addresses(&addrs).unwrap();
    let back = from_slice_addresses(bytes.as_slice()).unwrap();
    assert_eq!(back, addrs);
}

#[test]
fn cid_list_round_trips() {
    let cids = vec![Cid { value: 0 }, Cid { value: 1 }, Cid { value: u64::MAX }];
    let bytes = to_vec_cids(&cids).unwrap();
    let back = from_slice_cids(bytes.as_slice()).unwrap();
    assert_eq!(back, cids);
}

#[test]
fn encoding_is_deterministic() {
    let addrs = vec![Address { protocol: Protocol::Id, payload: 42 }];
    let a = to_vec_addresses(&addrs).unwrap();
    let b = to_vec_addresses(&addrs).unwrap();
    assert_eq!(a, b);
    let cids = vec![Cid { value: 42 }];
    let c = to_vec_cids(&cids).unwrap();
    let d = to_vec_cids(&cids).unwrap();
    assert_eq!(c, d);
}

#[test]
fn encoding_depends_on_the_values() {
    // an encoder that handed its input back unchanged could not satisfy
    // both of these
    let one = to_vec_cids(&vec![Cid { value: 1 }]).unwrap();
    let two = to_vec_cids(&vec![Cid { value: 2 }]).unwrap();
    assert_ne!(one, two);
    assert_ne!(one, vec![1u8]);
}

#[test]
fn malformed_bytes_are_rejected() {
    assert!(from_slice_addresses(&[]).is_none());
    assert!(from_slice_cids(&[0xff, 0xff]).is_none());
    // a CBOR list of plain integers is not a list of address pairs
    let ints = to_vec_cids(&vec![Cid { value: 9 }]).unwrap();
    assert!(from_slice_addresses(ints.as_slice()).is_none());
}

#[test]
fn unknown_scheme_byte_is_rejected() {
    // a pair list whose scheme byte no scheme uses decodes as integers but
    // not as addresses; build it by corrupting a valid encoding
    let addrs = vec![Address { protocol: Protocol::Bls, payload: 5 }];
    let mut bytes = to_vec_addresses(&addrs).unwrap();
    // the scheme byte 3 of the single pair appears once in the encoding
    let pos = bytes.iter().position(|b| *b == 3).unwrap();
    bytes[pos] = 9;
    assert!(from_slice_addresses(bytes.as_slice()).is_none());
}
