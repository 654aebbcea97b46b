//! Inherent-set tests: unique identifiers, the para provider's injection,
//! and extraction of the parent header it carries.

use try_replay::block::Header;
use try_replay::inherents::{
    parachains_identifier, InherentData, InherentError, ParaInherentData,
    ParaInherentDataProvider,
};

fn parent_header() -> Header {
    Header {
        parent_hash: vec![0x42; 32],
        number: 99,
        state_root: vec![0x01; 32],
        extrinsics_root: vec![0x02; 32],
        digest: vec![vec![0xaa, 0xbb]],
    }
}

#[test]
fn put_data_rejects_duplicate_identifiers() {
    let mut set = InherentData::new();
    assert!(set.put_data(b"timstap0".to_vec(), vec![1, 2]).is_ok());
    assert_eq!(
        set.put_data(b"timstap0".to_vec(), vec![3, 4]),
        Err(InherentError::DataExists)
    );
    // The first registration is untouched.
    assert_eq!(set.get_data(&b"timstap0".to_vec()), Some(vec![1, 2]));
    assert_eq!(set.get_data(&b"absent00".to_vec()), None);
}

#[test]
fn provider_injects_and_extraction_returns_the_parent_header() {
    let provider = ParaInherentDataProvider::new(parent_header());
    let mut set = InherentData::new();
    provider.provide_inherent_data(&mut set).expect("fresh set");
    let extracted = set.para_inherent_data().expect("valid bytes").expect("data present");
    let expected = parent_header();
    assert_eq!(extracted.parent_hash, expected.parent_hash);
    assert_eq!(extracted.number, expected.number);
    assert_eq!(extracted.state_root, expected.state_root);
    assert_eq!(extracted.extrinsics_root, expected.extrinsics_root);
    assert_eq!(extracted.digest, expected.digest);
    // Providing twice is a configuration error.
    assert_eq!(provider.provide_inherent_data(&mut set), Err(InherentError::DataExists));
}

#[test]
fn extraction_of_an_empty_set_is_absent() {
    let set = InherentData::new();
    assert!(matches!(set.para_inherent_data(), Ok(None)));
}

#[test]
fn extraction_of_corrupt_bytes_is_a_decoding_failure() {
    let mut set = InherentData::new();
    set.put_data(parachains_identifier(), vec![0, 0]).unwrap();
    assert!(matches!(set.para_inherent_data(), Err(InherentError::DecodingFailed)));
    let mut set = InherentData::new();
    set.put_data(parachains_identifier(), vec![1, 0, 0, 9]).unwrap();
    assert!(matches!(set.para_inherent_data(), Err(InherentError::DecodingFailed)));
}

#[test]
fn provider_declines_to_handle_engine_errors() {
    let provider = ParaInherentDataProvider::new(parent_header());
    assert!(provider.try_handle_error(&parachains_identifier(), &vec![9, 9]).is_none());
}
