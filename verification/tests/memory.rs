//! The store in memory.

use bytes::Bytes;
use cid::multihash::Multihash;
use cid::Cid;
use rsky_blobstore::{BlobStore, BlobStoreError, MemoryBlobStore};
use sha2::{Digest, Sha256};

const SHA2_256: u64 = 0x12;
const RAWCODEC: u64 = 0x55;

fn cid_for(bytes: &[u8]) -> Cid {
    let hash = Sha256::digest(bytes).to_vec();
    Cid::new_v1(RAWCODEC, Multihash::<64>::wrap(SHA2_256, &hash).unwrap())
}

fn concat(chunks: Vec<Bytes>) -> Vec<u8> {
    chunks.concat()
}

#[test]
fn blobstore_temp_to_permanent_lifecycle() {
    let mut store = MemoryBlobStore::default();
    let bytes = b"hello blob".to_vec();
    let cid = cid_for(&bytes);
    let key = store.put_temp(bytes.clone()).unwrap();
    assert!(store.has_temp(&key));
    assert!(BlobStore::has_temp(&store, key.clone()).unwrap());
    assert!(!store.has_stored(cid).unwrap());
    assert!(store.delete_all().is_none());

    store.make_permanent(key.clone(), cid).unwrap();
    assert!(!store.has_temp(&key));
    assert!(store.has_stored(cid).unwrap());
    assert_eq!(BlobStore::get_bytes(&store, cid).unwrap(), bytes);
    let streamed: Vec<Bytes> = BlobStore::get_stream(&store, cid).unwrap();
    assert_eq!(concat(streamed), bytes);
    assert!(store.make_permanent(key, cid).is_err());
}

#[test]
fn get_stream_yields_same_bytes_as_get_bytes() {
    let mut store = MemoryBlobStore::default();
    let bytes = b"stream parity".to_vec();
    let cid = cid_for(&bytes);
    store.put_permanent(cid, bytes.clone()).unwrap();

    let direct = BlobStore::get_bytes(&store, cid).unwrap();
    let streamed: Vec<Bytes> = BlobStore::get_stream(&store, cid).unwrap();
    assert_eq!(direct, concat(streamed));
    assert_eq!(direct, bytes);
}

#[test]
fn blobstore_quarantine_round_trip() {
    let mut store = MemoryBlobStore::default();
    let bytes = b"quarantine me".to_vec();
    let cid = cid_for(&bytes);
    assert!(store.quarantine(cid).is_err());
    store.put_permanent(cid, bytes.clone()).unwrap();
    store.quarantine(cid).unwrap();
    assert!(store.has_quarantined(&cid));
    assert!(!store.has_stored(cid).unwrap());
    assert!(BlobStore::get_bytes(&store, cid).is_err());
    assert!(BlobStore::get_stream(&store, cid).is_err());
    store.unquarantine(cid).unwrap();
    assert!(store.has_stored(cid).unwrap());
    assert!(!store.has_quarantined(&cid));
    assert_eq!(store.get_bytes(cid).unwrap(), bytes);
    assert!(store.unquarantine(cid).is_err());
}

#[test]
fn deletes_single_and_many() {
    let mut store = MemoryBlobStore::default();
    let one = b"one".to_vec();
    let two = b"two".to_vec();
    let (cid_one, cid_two) = (cid_for(&one), cid_for(&two));
    store.put_permanent(cid_one, one).unwrap();
    store.put_permanent(cid_two, two).unwrap();
    assert_eq!(store.stored_cids().len(), 2);
    store.delete(cid_one).unwrap();
    assert_eq!(store.stored_cids(), [cid_two.to_string()]);
    store.delete_many(vec![cid_one, cid_two]).unwrap();
    assert!(store.stored_cids().is_empty());
}

#[test]
fn stored_cids_are_texts_in_order() {
    let mut store = MemoryBlobStore::default();
    for word in ["two", "one", "foo", "hello blob", "one"] {
        store
            .put_permanent(cid_for(word.as_bytes()), word.as_bytes().to_vec())
            .unwrap();
    }
    assert_eq!(
        store.stored_cids(),
        [
            "bafkreib7ytgp45cyodrmbwm7ohzq74dfnsg63va4yhl5hu3wwdn6nbpc6m",
            "bafkreibme22gw2h7y2h7tg2fhqotaqjucnbc24deqo72b6mkl2egezxhvy",
            "bafkreidwslb22nkaxoadyaqlhlxgntmiq4jdenhkbrxhcq6avxlt75br5u",
            "bafkreihjs6x5dds7npqaj7azhlwszebjdzukwldvtgtckogjgw37zjvlb4",
        ]
    );
}

#[test]
fn many_blobs_stay_sorted_and_readable() {
    let mut store = MemoryBlobStore::default();
    let mut expected: Vec<String> = Vec::new();
    for n in 0u32..200 {
        let bytes = n.to_le_bytes().to_vec();
        expected.push(cid_for(&bytes).to_string());
        store.put_permanent(cid_for(&bytes), bytes).unwrap();
    }
    expected.sort();
    assert_eq!(store.stored_cids(), expected);
    for n in 0u32..200 {
        let bytes = n.to_le_bytes().to_vec();
        assert_eq!(store.get_bytes(cid_for(&bytes)).unwrap(), bytes);
    }
}

#[test]
fn temp_keys_count_up() {
    let mut store = MemoryBlobStore::default();
    for n in 0..12 {
        let key = store.put_temp(vec![n]).unwrap();
        assert_eq!(key, format!("temp-{}", n));
    }
    for n in 0..12 {
        assert!(store.has_temp(&format!("temp-{}", n)));
    }
    assert!(!store.has_temp("temp-12"));
    assert!(!store.has_temp("temp-01"));
    assert!(!store.has_temp(""));
}

#[test]
fn make_permanent_keeps_what_is_stored() {
    let mut store = MemoryBlobStore::default();
    let cid = cid_for(b"blob");
    store.put_permanent(cid, b"first".to_vec()).unwrap();
    let key = store.put_temp(b"second".to_vec()).unwrap();
    store.make_permanent(key.clone(), cid).unwrap();
    assert_eq!(store.get_bytes(cid).unwrap(), b"first");
    assert!(!store.has_temp(&key));
}

#[test]
fn put_permanent_replaces() {
    let mut store = MemoryBlobStore::default();
    let cid = cid_for(b"blob");
    store.put_permanent(cid, b"first".to_vec()).unwrap();
    store.put_permanent(cid, b"second".to_vec()).unwrap();
    assert_eq!(store.get_bytes(cid).unwrap(), b"second");
    assert_eq!(store.stored_cids().len(), 1);
}

#[test]
fn quarantine_replaces_what_was_there() {
    let mut store = MemoryBlobStore::default();
    let cid = cid_for(b"blob");
    store.put_permanent(cid, b"first".to_vec()).unwrap();
    store.quarantine(cid).unwrap();
    store.put_permanent(cid, b"second".to_vec()).unwrap();
    store.quarantine(cid).unwrap();
    store.unquarantine(cid).unwrap();
    assert_eq!(store.get_bytes(cid).unwrap(), b"second");
    assert!(!store.has_quarantined(&cid));
}

#[test]
fn deleting_leaves_quarantine_and_others_alone() {
    let mut store = MemoryBlobStore::default();
    let (hidden, shown) = (cid_for(b"hidden"), cid_for(b"shown"));
    store.put_permanent(hidden, b"hidden".to_vec()).unwrap();
    store.put_permanent(shown, b"shown".to_vec()).unwrap();
    store.quarantine(hidden).unwrap();
    store.delete(hidden).unwrap();
    store.delete(hidden).unwrap();
    assert!(store.has_quarantined(&hidden));
    assert_eq!(store.get_bytes(shown).unwrap(), b"shown");
    store.delete_many(vec![]).unwrap();
    assert_eq!(store.stored_cids(), [shown.to_string()]);
}

#[test]
fn refusals_tell_why_and_change_nothing() {
    let mut store = MemoryBlobStore::default();
    let cid = cid_for(b"foo");
    let text = "bafkreibme22gw2h7y2h7tg2fhqotaqjucnbc24deqo72b6mkl2egezxhvy";
    let err = store.make_permanent("nothing".to_owned(), cid).unwrap_err();
    assert_eq!(err.message(), "temp blob not found: nothing");
    assert!(matches!(err, BlobStoreError::TempNotFound(_)));
    let err = store.quarantine(cid).unwrap_err();
    assert_eq!(err.message(), format!("stored blob not found: {}", text));
    assert!(matches!(err, BlobStoreError::StoredNotFound(_)));
    let err = store.get_bytes(cid).unwrap_err();
    assert_eq!(err.message(), format!("stored blob not found: {}", text));
    let err = store.get_stream(cid).unwrap_err();
    assert_eq!(err.message(), format!("stored blob not found: {}", text));
    let err = store.unquarantine(cid).unwrap_err();
    assert_eq!(err.message(), format!("quarantined blob not found: {}", text));
    assert!(matches!(err, BlobStoreError::QuarantinedNotFound(_)));
    assert!(store.stored_cids().is_empty());
    assert!(!store.has_quarantined(&cid));
}

#[test]
fn empty_blobs_are_blobs() {
    let mut store = MemoryBlobStore::default();
    let cid = cid_for(b"");
    store.put_permanent(cid, Vec::new()).unwrap();
    assert!(store.has_stored(cid).unwrap());
    assert_eq!(store.get_bytes(cid).unwrap(), Vec::<u8>::new());
    assert_eq!(store.get_stream(cid).unwrap().len(), 1);
}
