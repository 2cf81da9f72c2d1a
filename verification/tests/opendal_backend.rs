//! The store on a backend, driven against a directory.

use bytes::Bytes;
use cid::multihash::Multihash;
use cid::Cid;
use futures::AsyncReadExt;
use opendal::Operator;
use rsky_blobstore::backends::opendal_store::{
    choose_backend, gen_key, key_of, store_on, BackendChoice,
};
use rsky_blobstore::backends::steps::{keep_reply, translate_err, Call, Outcome, Step};
use rsky_blobstore::backends::stream::{
    stream_item, stream_opened, stream_started, Polled, StreamItem, STREAM_BUFFER_LEN,
};
use rsky_blobstore::{build_operator, new_blobstore, BlobStoreError, OpendalBlobStore};
use sha2::{Digest, Sha256};
use tempfile::TempDir;

const SHA2_256: u64 = 0x12;
const RAWCODEC: u64 = 0x55;

fn cid_for(bytes: &[u8]) -> Cid {
    let hash = Sha256::digest(bytes).to_vec();
    Cid::new_v1(RAWCODEC, Multihash::<64>::wrap(SHA2_256, &hash).unwrap())
}

fn temp_store() -> (TempDir, OpendalBlobStore) {
    let dir = tempfile::tempdir().unwrap();
    let op = build_operator("fs", dir.path().to_str().unwrap()).unwrap();
    (
        dir,
        OpendalBlobStore::new(op, "did:example:alice".to_owned()),
    )
}

async fn perform(op: &Operator, call: Call) -> Result<(), opendal::Error> {
    match call {
        Call::Write { path, bytes } => op.write(&path, bytes).await.map(|_| ()),
        Call::Delete { path } => op.delete(&path).await,
        Call::Rename { from, to } => op.rename(&from, &to).await,
        Call::RemoveAll { path } => op.remove_all(&path).await,
    }
}

async fn drive(op: &Operator, mut step: Step) -> Result<Outcome, BlobStoreError> {
    loop {
        step = match step {
            Step::Perform(call, after) => after.resume(perform(op, call).await),
            Step::Exists(path, after) => after.resume(op.exists(&path).await),
            Step::Read(path, after) => after.resume(op.read(&path).await.map(|buf| buf.to_vec())),
            Step::Return(result) => return result,
        };
    }
}

fn run(store: &OpendalBlobStore, step: Step) -> Result<Outcome, BlobStoreError> {
    let runtime = tokio::runtime::Builder::new_current_thread().build().unwrap();
    runtime.block_on(drive(&store.op, step))
}

fn done(store: &OpendalBlobStore, step: Step) {
    assert!(matches!(run(store, step), Ok(Outcome::Done)));
}

fn key(store: &OpendalBlobStore, step: Step) -> String {
    match run(store, step) {
        Ok(Outcome::Key(key)) => key,
        other => panic!("no key: {:?}", other),
    }
}

fn flag(store: &OpendalBlobStore, step: Step) -> bool {
    match run(store, step) {
        Ok(Outcome::Flag(flag)) => flag,
        other => panic!("no flag: {:?}", other),
    }
}

fn content(store: &OpendalBlobStore, step: Step) -> Vec<u8> {
    match run(store, step) {
        Ok(Outcome::Content(bytes)) => bytes,
        other => panic!("no content: {:?}", other),
    }
}

fn stream(store: &OpendalBlobStore, cid: Cid) -> Result<Vec<Bytes>, BlobStoreError> {
    let path = store.get_stream(cid);
    let runtime = tokio::runtime::Builder::new_current_thread().build().unwrap();
    runtime.block_on(async {
        let reader = stream_opened(store.op.reader(&path).await)?;
        let mut source = stream_started(reader.into_futures_async_read(..).await)?;
        let mut chunks = Vec::new();
        loop {
            let mut buffer = vec![0u8; STREAM_BUFFER_LEN];
            let polled = match source.read(&mut buffer).await {
                Ok(n) => Polled::Read(n),
                Err(err) => Polled::Failed(err),
            };
            match stream_item(&buffer, polled) {
                StreamItem::Chunk(bytes) => chunks.push(bytes),
                StreamItem::End => return Ok(chunks),
                other => panic!("not a chunk: {:?}", other),
            }
        }
    })
}

#[test]
fn opendal_temp_to_permanent_lifecycle() {
    let (_dir, store) = temp_store();
    let bytes = b"hello opendal blob".to_vec();
    let cid = cid_for(&bytes);
    let key = key(&store, store.put_temp(bytes.clone()));
    assert!(flag(&store, store.has_temp(key.clone())));
    assert!(!flag(&store, store.has_stored(cid)));
    done(&store, store.make_permanent(key.clone(), cid));
    assert!(!flag(&store, store.has_temp(key.clone())));
    assert!(flag(&store, store.has_stored(cid)));
    assert_eq!(content(&store, store.get_bytes(cid)), bytes);
    let streamed = stream(&store, cid).unwrap();
    assert_eq!(streamed.concat(), bytes);
    done(&store, store.make_permanent(key, cid));
    assert_eq!(content(&store, store.get_bytes(cid)), bytes);
}

#[test]
fn opendal_quarantine_round_trip() {
    let (_dir, store) = temp_store();
    let bytes = b"quarantine me".to_vec();
    let cid = cid_for(&bytes);
    done(&store, store.put_permanent(cid, bytes.clone()));
    done(&store, store.quarantine(cid));
    assert!(!flag(&store, store.has_stored(cid)));
    done(&store, store.unquarantine(cid));
    assert!(flag(&store, store.has_stored(cid)));
    assert_eq!(content(&store, store.get_bytes(cid)), bytes);
    let err = run(&store, store.unquarantine(cid)).unwrap_err();
    assert!(matches!(err, BlobStoreError::BlobNotFound(_)));
}

#[test]
fn missing_blob_returns_not_found() {
    let (_dir, store) = temp_store();
    let cid = cid_for(b"never uploaded");
    let err = run(&store, store.get_bytes(cid)).unwrap_err();
    assert_eq!(err.message(), "Blob not found");
    assert!(matches!(err, BlobStoreError::BlobNotFound(_)));
    for step in [
        store.make_permanent("nothing".to_owned(), cid),
        store.quarantine(cid),
        store.unquarantine(cid),
    ] {
        let err = run(&store, step).unwrap_err();
        assert!(matches!(err, BlobStoreError::BlobNotFound(_)));
    }
    assert!(stream(&store, cid).is_err());
}

#[test]
fn delete_is_idempotent() {
    let (_dir, store) = temp_store();
    let cid = cid_for(b"deletable");
    done(&store, store.put_permanent(cid, b"deletable".to_vec()));
    done(&store, store.delete(cid));
    done(&store, store.delete(cid));
    assert!(!flag(&store, store.has_stored(cid)));
}

#[test]
fn stored_blob_wins_over_temporary_one() {
    let (_dir, store) = temp_store();
    let cid = cid_for(b"blob");
    done(&store, store.put_permanent(cid, b"first".to_vec()));
    let key = key(&store, store.put_temp(b"second".to_vec()));
    done(&store, store.make_permanent(key.clone(), cid));
    assert_eq!(content(&store, store.get_bytes(cid)), b"first");
    assert!(!flag(&store, store.has_temp(key)));
}

#[test]
fn deletes_many_and_leaves_others() {
    let (_dir, store) = temp_store();
    let (one, two, three) = (cid_for(b"one"), cid_for(b"two"), cid_for(b"three"));
    for cid in [one, two, three] {
        done(&store, store.put_permanent(cid, b"x".to_vec()));
    }
    done(&store, store.delete_many(vec![one, cid_for(b"none"), three]));
    assert!(!flag(&store, store.has_stored(one)));
    assert!(flag(&store, store.has_stored(two)));
    assert!(!flag(&store, store.has_stored(three)));
    done(&store, store.delete_many(vec![]));
}

#[test]
fn deletes_all_of_an_actor_and_leaves_others() {
    let (_dir, store) = temp_store();
    let other = OpendalBlobStore::new(store.op.clone(), "did:example:bob".to_owned());
    let (seen, hidden) = (cid_for(b"seen"), cid_for(b"hidden"));
    for actor in [&store, &other] {
        done(actor, actor.put_permanent(seen, b"seen".to_vec()));
        done(actor, actor.put_permanent(hidden, b"hidden".to_vec()));
        done(actor, actor.quarantine(hidden));
        assert_eq!(
            key(actor, actor.put_temp_as("key".to_owned(), b"temp".to_vec())),
            "key"
        );
    }
    done(&store, store.delete_all().unwrap());
    assert!(!flag(&store, store.has_stored(seen)));
    assert!(!flag(&store, store.has_temp("key".to_owned())));
    assert!(run(&store, store.unquarantine(hidden)).is_err());
    assert!(flag(&other, other.has_stored(seen)));
    assert!(flag(&other, other.has_temp("key".to_owned())));
    done(&other, other.unquarantine(hidden));
    assert_eq!(content(&other, other.get_bytes(hidden)), b"hidden");
}

#[test]
fn large_blobs_stream_in_chunks() {
    let (_dir, store) = temp_store();
    let bytes: Vec<u8> = (0..100_000u32).map(|n| (n % 251) as u8).collect();
    let cid = cid_for(&bytes);
    done(&store, store.put_permanent(cid, bytes.clone()));
    let chunks = stream(&store, cid).unwrap();
    assert!(chunks.len() > 1);
    assert!(chunks.iter().all(|chunk| chunk.len() <= STREAM_BUFFER_LEN));
    assert_eq!(chunks.concat(), bytes);
}

#[test]
fn paths_of_the_three_areas() {
    let (_dir, store) = temp_store();
    let cid = cid_for(b"foo");
    let text = "bafkreibme22gw2h7y2h7tg2fhqotaqjucnbc24deqo72b6mkl2egezxhvy";
    assert_eq!(
        store.block_path(cid),
        format!("blocks/did:example:alice/{}", text)
    );
    assert_eq!(store.get_stream(cid), store.block_path(cid));
    assert_eq!(store.tmp_path("some key"), "tmp/did:example:alice/some key");
    assert_eq!(
        store.quarantine_path(cid),
        format!("quarantine/did:example:alice/{}", text)
    );
}

#[test]
fn steps_of_the_operations() {
    let (_dir, store) = temp_store();
    let cid = cid_for(b"foo");
    match store.put_temp_as("k".to_owned(), vec![1, 2]) {
        Step::Perform(Call::Write { path, bytes }, after) => {
            assert_eq!(path, "tmp/did:example:alice/k");
            assert_eq!(bytes, [1, 2]);
            assert!(matches!(
                after.resume(Ok(())),
                Step::Return(Ok(Outcome::Key(key))) if key == "k"
            ));
        }
        other => panic!("not a write: {:?}", other),
    }
    match store.make_permanent("k".to_owned(), cid) {
        Step::Exists(path, after) => {
            assert_eq!(path, store.block_path(cid));
            match after.resume(Ok(false)) {
                Step::Perform(Call::Rename { from, to }, _) => {
                    assert_eq!(from, "tmp/did:example:alice/k");
                    assert_eq!(to, store.block_path(cid));
                }
                other => panic!("not a rename: {:?}", other),
            }
        }
        other => panic!("not a question: {:?}", other),
    }
    match store.make_permanent("k".to_owned(), cid) {
        Step::Exists(_, after) => {
            assert!(matches!(
                after.resume(Ok(true)),
                Step::Perform(Call::Delete { path }, _) if path == "tmp/did:example:alice/k"
            ));
        }
        other => panic!("not a question: {:?}", other),
    }
}

#[test]
fn delete_many_goes_on_after_an_error() {
    let (_dir, store) = temp_store();
    let cids = vec![cid_for(b"one"), cid_for(b"two")];
    let mut step = store.delete_many(cids.clone());
    for cid in cids {
        step = match step {
            Step::Perform(Call::Delete { path }, after) => {
                assert_eq!(path, store.block_path(cid));
                after.resume(Err(opendal::Error::new(opendal::ErrorKind::Unexpected, "no")))
            }
            other => panic!("not a delete: {:?}", other),
        };
    }
    assert!(matches!(step, Step::Return(Ok(Outcome::Done))));
}

#[test]
fn delete_all_stops_at_an_error() {
    let (_dir, store) = temp_store();
    let step = match store.delete_all().unwrap() {
        Step::Perform(Call::RemoveAll { path }, after) => {
            assert_eq!(path, "blocks/did:example:alice/");
            after.resume(Ok(()))
        }
        other => panic!("not a removal: {:?}", other),
    };
    let step = match step {
        Step::Perform(Call::RemoveAll { path }, after) => {
            assert_eq!(path, "tmp/did:example:alice/");
            after.resume(Err(opendal::Error::new(
                opendal::ErrorKind::PermissionDenied,
                "no",
            )))
        }
        other => panic!("not a removal: {:?}", other),
    };
    assert!(matches!(step, Step::Return(Err(BlobStoreError::Backend(_)))));
}

#[test]
fn errors_of_the_backend_are_told() {
    let missing = opendal::Error::new(opendal::ErrorKind::NotFound, "nothing there");
    let denied = opendal::Error::new(opendal::ErrorKind::PermissionDenied, "keep out");
    let text = denied.to_string();
    assert_eq!(translate_err(missing).message(), "Blob not found");
    let told = translate_err(denied);
    assert_eq!(told.message(), text);
    match told {
        BlobStoreError::Backend(err) => {
            assert_eq!(err.kind(), opendal::ErrorKind::PermissionDenied)
        }
        other => panic!("not an error of the backend: {:?}", other),
    }
    let missing = opendal::Error::new(opendal::ErrorKind::NotFound, "nothing there");
    assert!(matches!(
        keep_reply::<()>(Err(missing)),
        Err(BlobStoreError::Backend(_))
    ));
}

#[test]
fn failures_of_a_stream_are_told() {
    let missing = || opendal::Error::new(opendal::ErrorKind::NotFound, "nothing there");
    let denied = || opendal::Error::new(opendal::ErrorKind::PermissionDenied, "keep out");
    assert!(matches!(stream_opened(Ok(7)), Ok(7)));
    assert!(matches!(
        stream_opened::<()>(Err(missing())),
        Err(BlobStoreError::BlobNotFound(_))
    ));
    assert!(matches!(
        stream_opened::<()>(Err(denied())),
        Err(BlobStoreError::Backend(err)) if err.kind() == opendal::ErrorKind::PermissionDenied
    ));
    assert!(matches!(stream_started(Ok(7)), Ok(7)));
    assert!(matches!(
        stream_started::<()>(Err(missing())),
        Err(BlobStoreError::Backend(err)) if err.kind() == opendal::ErrorKind::NotFound
    ));
    assert!(matches!(
        stream_started::<()>(Err(denied())),
        Err(BlobStoreError::Backend(err)) if err.kind() == opendal::ErrorKind::PermissionDenied
    ));
}

#[test]
fn actors_do_not_disturb_each_other() {
    let (_dir, store) = temp_store();
    let other = OpendalBlobStore::new(store.op.clone(), "did:example:bob".to_owned());
    let cid = cid_for(b"shared");
    for (actor, bytes) in [(&store, b"alice's"), (&other, b"bobby's")] {
        done(actor, actor.put_permanent(cid, bytes.to_vec()));
        key(actor, actor.put_temp_as("key".to_owned(), bytes.to_vec()));
    }
    done(&other, other.make_permanent("key".to_owned(), cid));
    done(&other, other.quarantine(cid));
    done(&other, other.unquarantine(cid));
    done(&other, other.delete(cid));
    done(&other, other.delete_many(vec![cid]));
    assert_eq!(content(&store, store.get_bytes(cid)), b"alice's");
    assert_eq!(stream(&store, cid).unwrap().concat(), b"alice's");
    assert!(flag(&store, store.has_temp("key".to_owned())));
}

#[test]
fn keys_are_sixteen_hexadecimal_digits() {
    assert_eq!(key_of(0), "0000000000000000");
    assert_eq!(key_of(0xabc), "0000000000000abc");
    assert_eq!(key_of(0x0123456789abcdef), "0123456789abcdef");
    assert_eq!(key_of(u64::MAX), "ffffffffffffffff");
    let key = gen_key();
    assert_eq!(key.len(), 16);
    assert_eq!(format!("{:016x}", u64::from_str_radix(&key, 16).unwrap()), key);
    assert_ne!(gen_key(), gen_key());
}

#[test]
fn stream_items() {
    let buffer = [1u8, 2, 3, 0, 0];
    match stream_item(&buffer, Polled::Read(3)) {
        StreamItem::Chunk(bytes) => assert_eq!(&bytes[..], [1, 2, 3]),
        other => panic!("not a chunk: {:?}", other),
    }
    assert!(matches!(stream_item(&buffer, Polled::Read(0)), StreamItem::End));
    assert!(matches!(stream_item(&buffer, Polled::Pending), StreamItem::Pending));
    let early = std::io::Error::new(std::io::ErrorKind::UnexpectedEof, "early");
    assert!(matches!(stream_item(&buffer, Polled::Failed(early)), StreamItem::End));
    let broken = std::io::Error::new(std::io::ErrorKind::BrokenPipe, "broken");
    match stream_item(&buffer, Polled::Failed(broken)) {
        StreamItem::Failed(err) => assert_eq!(err.kind(), std::io::ErrorKind::BrokenPipe),
        other => panic!("not a failure: {:?}", other),
    }
}

#[test]
fn operators_by_kind() {
    let dir = tempfile::tempdir().unwrap();
    let root = dir.path().join("made");
    let op = build_operator("fs", root.to_str().unwrap()).unwrap();
    assert_eq!(op.info().scheme(), opendal::Scheme::Fs);
    assert!(root.is_dir());
    assert!(matches!(
        build_operator("fs", ""),
        Err(BlobStoreError::Backend(_))
    ));
    match build_operator("s3", "my-bucket") {
        Ok(op) => {
            assert_eq!(op.info().scheme(), opendal::Scheme::S3);
            assert_eq!(op.info().name(), "my-bucket");
        }
        Err(err) => assert!(matches!(err, BlobStoreError::Backend(_))),
    }
    assert!(matches!(
        build_operator("s3", ""),
        Err(BlobStoreError::Backend(_))
    ));
    let err = build_operator("gcs", "x").unwrap_err();
    assert_eq!(err.message(), "unsupported opendal operator kind: gcs");
    assert!(matches!(err, BlobStoreError::UnsupportedKind(kind) if kind == "gcs"));
}

#[test]
fn backends_by_kind() {
    assert!(matches!(
        choose_backend("fs", "/blobs"),
        Ok(BackendChoice::Fs { root }) if root == "/blobs"
    ));
    assert!(matches!(
        choose_backend("s3", "blobs"),
        Ok(BackendChoice::S3 { bucket }) if bucket == "blobs"
    ));
    assert!(choose_backend("FS", "/blobs").is_err());
    assert!(choose_backend("", "/blobs").is_err());
}

#[test]
fn stores_by_kind() {
    let dir = tempfile::tempdir().unwrap();
    let store = new_blobstore(
        "fs",
        dir.path().to_str().unwrap(),
        "did:example:alice".to_owned(),
    )
    .unwrap();
    assert_eq!(store.did, "did:example:alice");
    let copy = store.clone();
    assert_eq!(copy.did, "did:example:alice");
    let cid = cid_for(b"shared");
    done(&store, store.put_permanent(cid, b"shared".to_vec()));
    assert_eq!(content(&copy, copy.get_bytes(cid)), b"shared");
    let err = new_blobstore("gcs", "b", "did:example:alice".to_owned()).unwrap_err();
    assert_eq!(err.message(), "unsupported opendal operator kind: gcs");
    let again = store_on(Ok(store.op.clone()), "did:example:bob".to_owned()).unwrap();
    assert_eq!(again.did, "did:example:bob");
    assert!(!flag(&again, again.has_stored(cid)));
    let refused = BlobStoreError::UnsupportedKind("tape".to_owned());
    assert!(matches!(
        store_on(Err(refused), "did:example:bob".to_owned()),
        Err(BlobStoreError::UnsupportedKind(kind)) if kind == "tape"
    ));
}

#[test]
fn deleting_all_leaves_actors_whose_names_start_alike() {
    let (_dir, store) = temp_store();
    let shorter = OpendalBlobStore::new(store.op.clone(), "did:example:al".to_owned());
    let longer = OpendalBlobStore::new(store.op.clone(), "did:example:alice:bob".to_owned());
    let cid = cid_for(b"blob");
    done(&shorter, shorter.delete_all().unwrap());
    for actor in [&shorter, &store, &longer] {
        done(actor, actor.put_permanent(cid, b"blob".to_vec()));
        key(actor, actor.put_temp_as("key".to_owned(), b"temp".to_vec()));
    }
    done(&store, store.delete_all().unwrap());
    assert!(!flag(&store, store.has_stored(cid)));
    assert!(!flag(&store, store.has_temp("key".to_owned())));
    for actor in [&shorter, &longer] {
        assert_eq!(content(actor, actor.get_bytes(cid)), b"blob");
        assert!(flag(actor, actor.has_temp("key".to_owned())));
    }
    done(&store, store.delete_all().unwrap());
}
