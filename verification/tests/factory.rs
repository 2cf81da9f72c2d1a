//! The choice of a store.

use aws_config::SdkConfig;
use rsky_blobstore::{BlobstoreConfig, BlobstoreFactory, StoreChoice};

#[test]
fn factory_builds_disk_store_from_disk_config() {
    let dir = tempfile::tempdir().unwrap();
    let location = dir.path().join("blobs");
    let factory = BlobstoreFactory::new(
        BlobstoreConfig::Disk {
            location: location.to_string_lossy().to_string(),
            tmp_location: None,
        },
        SdkConfig::builder().build(),
    );
    match factory.blobstore("did:example:alice".to_owned()) {
        StoreChoice::Disk {
            did,
            location: chosen,
            tmp_location,
            quarantine_location,
        } => {
            assert_eq!(did, "did:example:alice");
            assert_eq!(chosen, location.to_string_lossy());
            assert_eq!(tmp_location, None);
            assert_eq!(quarantine_location, None);
        }
        other => panic!("not on disk: {:?}", other),
    }
}

#[test]
fn factory_builds_disk_store_with_custom_tmp_location() {
    let dir = tempfile::tempdir().unwrap();
    let location = dir.path().join("blobs");
    let tmp_location = dir.path().join("tmp");
    let factory = BlobstoreFactory::new(
        BlobstoreConfig::Disk {
            location: location.to_string_lossy().to_string(),
            tmp_location: Some(tmp_location.to_string_lossy().to_string()),
        },
        SdkConfig::builder().build(),
    );
    match factory.blobstore("did:example:alice".to_owned()) {
        StoreChoice::Disk {
            did,
            location: chosen,
            tmp_location: tmp_chosen,
            quarantine_location,
        } => {
            assert_eq!(did, "did:example:alice");
            assert_eq!(chosen, location.to_string_lossy());
            assert_eq!(
                tmp_chosen,
                Some(tmp_location.to_string_lossy().to_string())
            );
            assert_eq!(quarantine_location, None);
        }
        other => panic!("not on disk: {:?}", other),
    }
}

#[test]
fn factory_builds_s3_store_from_s3_config() {
    let aws_cfg = SdkConfig::builder()
        .behavior_version(aws_config::BehaviorVersion::latest())
        .endpoint_url("http://localhost")
        .build();
    let factory = BlobstoreFactory::new(
        BlobstoreConfig::S3 {
            bucket: Some("my-bucket".to_owned()),
        },
        aws_cfg.clone(),
    );
    match factory.blobstore("did:example:alice".to_owned()) {
        StoreChoice::S3 {
            did,
            aws_cfg,
            bucket,
        } => {
            assert_eq!(did, "did:example:alice");
            assert_eq!(aws_cfg.endpoint_url(), Some("http://localhost"));
            assert_eq!(bucket, Some("my-bucket".to_owned()));
        }
        other => panic!("not on S3: {:?}", other),
    }

    let legacy = BlobstoreFactory::new(BlobstoreConfig::S3 { bucket: None }, aws_cfg);
    assert!(matches!(
        legacy.blobstore("did:example:alice".to_owned()),
        StoreChoice::S3 { bucket: None, .. }
    ));
}
