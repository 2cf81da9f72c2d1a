//! The choice of a blob store for an actor.

use aws_config::SdkConfig;
use vstd::prelude::*;

verus! {

/// Where blobs are to be kept.
#[derive(Debug)]
pub enum BlobstoreConfig {
    /// On the local disk, with temporary blobs in a place of their own if one is
    /// given.
    Disk { location: String, tmp_location: Option<String> },
    /// On S3, in one bucket for all actors if one is given.
    S3 { bucket: Option<String> },
}

/// The store that an actor's blobs are to be kept in, with all that it is opened
/// with.
#[derive(Debug)]
pub enum StoreChoice<'a> {
    Disk {
        did: String,
        location: String,
        tmp_location: Option<String>,
        quarantine_location: Option<String>,
    },
    S3 { did: String, aws_cfg: &'a SdkConfig, bucket: Option<String> },
}

/// The text of an optional string.
pub open spec fn text_of(value: Option<String>) -> Option<Seq<char>> {
    match value {
        Some(text) => Some(text@),
        None => None,
    }
}

/// There is a text exactly where there is a string, and it is that of the string.
pub proof fn text_of_tells(value: Option<String>)
    ensures
        text_of(value) is Some <==> value is Some,
        value is Some ==> text_of(value)->0 == value->0@,
{
}

/// Copies an optional string.
fn copy_text(value: &Option<String>) -> (copy: Option<String>)
    ensures
        text_of(copy) == text_of(*value),
        copy is Some <==> *value is Some,
        *value is Some ==> copy->0@ == value->0@,
{
    match value {
        Some(text) => Some(text.clone()),
        None => None,
    }
}

/// Chooses the configured blob store for a given actor.
#[derive(Debug)]
pub struct BlobstoreFactory {
    cfg: BlobstoreConfig,
    aws_cfg: SdkConfig,
}

impl BlobstoreFactory {
    /// Where blobs are to be kept.
    pub closed spec fn config(&self) -> BlobstoreConfig {
        self.cfg
    }

    /// The settings for AWS.
    pub closed spec fn aws_config(&self) -> SdkConfig {
        self.aws_cfg
    }

    /// A factory for the store of `cfg`, which goes by `aws_cfg` if it is on S3.
    pub fn new(cfg: BlobstoreConfig, aws_cfg: SdkConfig) -> (factory: Self)
        ensures
            factory.config() == cfg,
            factory.aws_config() == aws_cfg,
    {
        BlobstoreFactory { cfg, aws_cfg }
    }

    /// Chooses the store of the actor `did`.
    pub fn blobstore(&self, did: String) -> (choice: StoreChoice<'_>)
        ensures
            match self.config() {
                BlobstoreConfig::Disk { location, tmp_location } => {
                    &&& choice matches StoreChoice::Disk {
                        did: actor,
                        location: chosen,
                        tmp_location: tmp_chosen,
                        quarantine_location,
                    }
                    &&& actor == did
                    &&& chosen@ == location@
                    &&& text_of(tmp_chosen) == text_of(tmp_location)
                    &&& tmp_chosen is Some <==> tmp_location is Some
                    &&& tmp_location is Some ==> tmp_chosen->0@ == tmp_location->0@
                    &&& quarantine_location is None
                },
                BlobstoreConfig::S3 { bucket } => {
                    &&& choice matches StoreChoice::S3 { did: actor, aws_cfg, bucket: chosen }
                    &&& actor == did
                    &&& *aws_cfg == self.aws_config()
                    &&& text_of(chosen) == text_of(bucket)
                    &&& chosen is Some <==> bucket is Some
                    &&& bucket is Some ==> chosen->0@ == bucket->0@
                },
            },
    {
        match &self.cfg {
            BlobstoreConfig::Disk { location, tmp_location } => StoreChoice::Disk {
                did,
                location: location.clone(),
                tmp_location: copy_text(tmp_location),
                quarantine_location: None,
            },
            BlobstoreConfig::S3 { bucket } => StoreChoice::S3 {
                did,
                aws_cfg: &self.aws_cfg,
                bucket: copy_text(bucket),
            },
        }
    }
}

} // verus!
