//! Wire-format tests: the verified decoders against the reference codec's
//! encoders, exact expected bytes, and the payload round trip.

use parity_scale_codec::{Compact, Encode};
use try_replay::block::{normalize_block, Block, Header};
use try_replay::codec::{decode_bool, decode_bytes, decode_byteslist, decode_compact_u32,
    decode_u32, encode_bytes_into, encode_compact_u32_into};
use try_replay::payload::{assemble_payload, decode_payload, TryStateSelect};

fn sample_header(number: u32, digest: Vec<Vec<u8>>) -> Header {
    Header {
        parent_hash: vec![0x11; 32],
        number,
        state_root: vec![0x22; 32],
        extrinsics_root: vec![0x33; 32],
        digest,
    }
}

fn sample_block() -> Block {
    Block {
        header: sample_header(100, vec![vec![1, 2, 3], vec![4, 5]]),
        extrinsics: vec![vec![9, 9], vec![]],
    }
}

#[test]
fn compact_encoding_exact_bytes() {
    let mut out: Vec<u8> = Vec::new();
    encode_compact_u32_into(&mut out, 0);
    assert_eq!(out, vec![0x00]);
    let mut out: Vec<u8> = Vec::new();
    encode_compact_u32_into(&mut out, 1);
    assert_eq!(out, vec![0x04]);
    let mut out: Vec<u8> = Vec::new();
    encode_compact_u32_into(&mut out, 63);
    assert_eq!(out, vec![0xfc]);
    let mut out: Vec<u8> = Vec::new();
    encode_compact_u32_into(&mut out, 64);
    assert_eq!(out, vec![0x01, 0x01]);
    let mut out: Vec<u8> = Vec::new();
    encode_compact_u32_into(&mut out, 16383);
    assert_eq!(out, vec![0xfd, 0xff]);
    let mut out: Vec<u8> = Vec::new();
    encode_compact_u32_into(&mut out, 16384);
    assert_eq!(out, vec![0x02, 0x00, 0x01, 0x00]);
    let mut out: Vec<u8> = Vec::new();
    encode_compact_u32_into(&mut out, u32::MAX);
    assert_eq!(out, vec![0x03, 0xff, 0xff, 0xff, 0xff]);
}

#[test]
fn compact_decode_inverts_reference_encode() {
    for n in [0u32, 1, 63, 64, 255, 16383, 16384, 65536, 1 << 29, (1 << 30) - 1, 1 << 30,
        u32::MAX] {
        let encoded = Compact(n).encode();
        let decoded = decode_compact_u32(&encoded, 0).expect("canonical form must decode");
        assert_eq!(decoded.0, n);
        assert_eq!(decoded.1, encoded.len());
    }
}

#[test]
fn compact_wrapper_really_encodes() {
    // A wrapper handing its argument back unchanged would return no bytes
    // resembling these.
    let mut out: Vec<u8> = Vec::new();
    encode_compact_u32_into(&mut out, 1_000_000);
    assert_eq!(out, Compact(1_000_000u32).encode());
    assert_eq!(decode_compact_u32(&out, 0), Some((1_000_000, 4)));
}

#[test]
fn bool_and_u32_decode_invert_reference_encode() {
    assert_eq!(decode_bool(&true.encode(), 0), Some((true, 1)));
    assert_eq!(decode_bool(&false.encode(), 0), Some((false, 1)));
    assert_eq!(decode_bool(&vec![7u8], 0), None);
    let encoded = 305_419_896u32.encode();
    assert_eq!(decode_u32(&encoded, 0), Some((305_419_896, 4)));
    assert_eq!(encoded, vec![0x78, 0x56, 0x34, 0x12]);
}

#[test]
fn bytes_decode_inverts_reference_encode() {
    let v: Vec<u8> = vec![10, 20, 30, 40];
    let encoded = v.encode();
    let mut ours: Vec<u8> = Vec::new();
    encode_bytes_into(&mut ours, &v);
    assert_eq!(ours, encoded);
    let (decoded, used) = decode_bytes(&encoded, 0).expect("must decode");
    assert_eq!(decoded, v);
    assert_eq!(used, encoded.len());
}

#[test]
fn byteslist_decode_handles_empty_and_nested() {
    let items: Vec<Vec<u8>> = vec![vec![1], vec![], vec![2, 3]];
    // The reference encoding of a list of byte strings.
    let encoded = items.encode();
    let (decoded, used) = decode_byteslist(&encoded, 0).expect("must decode");
    assert_eq!(decoded, items);
    assert_eq!(used, encoded.len());
    let empty: Vec<Vec<u8>> = Vec::new();
    let encoded = empty.encode();
    let (decoded, used) = decode_byteslist(&encoded, 0).expect("must decode");
    assert_eq!(decoded, empty);
    assert_eq!(used, encoded.len());
}

#[test]
fn payload_round_trips_every_selector() {
    let selectors = [
        TryStateSelect::Nothing,
        TryStateSelect::All,
        TryStateSelect::RoundRobin(0),
        TryStateSelect::RoundRobin(12),
        TryStateSelect::Only(vec![b"System".to_vec(), b"Staking".to_vec()]),
    ];
    for sel in selectors {
        let block = sample_block();
        let normalized = normalize_block(block);
        let payload = assemble_payload(&normalized, false, false, &sel);
        let (b2, rc, sc, sel2) = decode_payload(&payload).expect("round trip");
        assert!(!rc);
        assert!(!sc);
        assert_eq!(b2.header.parent_hash, normalized.header.parent_hash);
        assert_eq!(b2.header.number, normalized.header.number);
        assert_eq!(b2.header.state_root, normalized.header.state_root);
        assert_eq!(b2.header.extrinsics_root, normalized.header.extrinsics_root);
        assert_eq!(b2.header.digest, normalized.header.digest);
        assert_eq!(b2.extrinsics, normalized.extrinsics);
        match (&sel, &sel2) {
            (TryStateSelect::Nothing, TryStateSelect::Nothing) => {}
            (TryStateSelect::All, TryStateSelect::All) => {}
            (TryStateSelect::RoundRobin(a), TryStateSelect::RoundRobin(b)) => assert_eq!(a, b),
            (TryStateSelect::Only(a), TryStateSelect::Only(b)) => assert_eq!(a, b),
            _ => panic!("selector variant changed in the round trip"),
        }
    }
}

#[test]
fn payload_rejects_trailing_bytes() {
    let block = sample_block();
    let mut payload = assemble_payload(&block, false, false, &TryStateSelect::All);
    payload.push(0);
    assert!(decode_payload(&payload).is_none());
}

#[test]
fn normalize_strips_exactly_one_digest_item() {
    let block = Block {
        header: sample_header(7, vec![vec![1], vec![2], vec![3]]),
        extrinsics: vec![vec![8]],
    };
    let normalized = normalize_block(block);
    assert_eq!(normalized.header.digest, vec![vec![1], vec![2]]);
    assert_eq!(normalized.header.number, 7);
    assert_eq!(normalized.header.parent_hash, vec![0x11; 32]);
    assert_eq!(normalized.header.state_root, vec![0x22; 32]);
    assert_eq!(normalized.header.extrinsics_root, vec![0x33; 32]);
    assert_eq!(normalized.extrinsics, vec![vec![8u8]]);
}

#[test]
fn normalize_of_empty_digest_changes_nothing() {
    let block = Block { header: sample_header(7, vec![]), extrinsics: vec![] };
    let normalized = normalize_block(block);
    assert!(normalized.header.digest.is_empty());
}
