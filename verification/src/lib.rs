//! Storage of the blobs of a personal data server.
//!
//! This crate owns the [`BlobStore`] interface, the [`BlobNotFoundError`] error,
//! a [`MemoryBlobStore`] that keeps its blobs in memory, and the
//! [`OpendalBlobStore`] that keeps them on a storage backend. What the stores do
//! is stated in the contracts of their methods, over [`state::BlobState`] for
//! the one and over the calls on the backend ([`backends::steps`]) for the
//! other; [`backends::model`] tells what those calls come to on a backend that
//! can rename (the local file system can, S3 cannot).

pub mod backends;
pub mod blobstore;
pub mod error;
pub mod factory;
pub mod outside;
pub mod state;
pub mod table;
pub mod text;

pub use backends::opendal_store::{build_operator, new_blobstore, OpendalBlobStore};
pub use blobstore::{BlobStore, MemoryBlobStore};
pub use error::{BlobNotFoundError, BlobStoreError};
pub use factory::{BlobstoreConfig, BlobstoreFactory, StoreChoice};
