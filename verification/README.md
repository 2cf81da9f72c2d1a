# rsky-blobstore

Storage of the blobs of a personal data server, with the behaviour of the stores
stated in contracts and proved with Verus.

- `src/blobstore.rs`: the `BlobStore` interface and the `MemoryBlobStore`;
  `src/state.rs` is what a store holds and the laws that follow,
  `src/table.rs` and `src/text.rs` are what it is made of.
- `src/backends/opendal_store.rs`: the `OpendalBlobStore`, whose operations are
  steps (`steps.rs`) that name one backend call at a time; `stream.rs` makes the
  chunks of a stream; `model.rs` proves what the steps come to on a backend that
  keeps objects by their paths and can rename them, as the local file system
  does and S3 does not.
- `src/factory.rs`: the choice of a store for an actor.
- `src/error.rs`: why an operation failed, and what it says.
- `src/outside.rs`: what is taken on trust of the crates `cid`, `bytes`,
  `opendal`, `rand` and `aws-config`, and of `std::io`.
- `app/`: the asynchronous stores, which make the calls.
