//! Blob stores on storage backends.

pub mod model;
pub mod opendal_store;
pub mod steps;
pub mod stream;
