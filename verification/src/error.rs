//! Why an operation on a blob store failed.

use crate::outside::backend_error_to_string;
use vstd::prelude::*;
use vstd::string::*;

verus! {

/// There is no blob under the identifier that was asked for.
#[derive(Debug)]
pub struct BlobNotFoundError;

impl BlobNotFoundError {
    /// The message of the error.
    pub fn message(&self) -> (text: String)
        ensures
            text@ == "Blob not found"@,
    {
        "Blob not found".to_owned()
    }
}

/// Why an operation failed.
#[derive(Debug)]
pub enum BlobStoreError {
    /// The backend has no blob there.
    BlobNotFound(BlobNotFoundError),
    /// The backend failed in another way.
    Backend(opendal::Error),
    /// There is no backend of this kind.
    UnsupportedKind(String),
    /// There is no temporary blob under this key.
    TempNotFound(String),
    /// There is no stored blob under this identifier.
    StoredNotFound(String),
    /// There is no quarantined blob under this identifier.
    QuarantinedNotFound(String),
}

/// A [`BlobStoreError`], with text in place of strings.
pub enum ErrorView {
    BlobNotFound,
    Backend(opendal::Error),
    UnsupportedKind(Seq<char>),
    TempNotFound(Seq<char>),
    StoredNotFound(Seq<char>),
    QuarantinedNotFound(Seq<char>),
}

impl ErrorView {
    /// The message of the error, if the library words it. That of an error of the
    /// backend is worded there.
    pub open spec fn message(self) -> Option<Seq<char>> {
        match self {
            ErrorView::BlobNotFound => Some("Blob not found"@),
            ErrorView::Backend(_) => None,
            ErrorView::UnsupportedKind(kind) => Some("unsupported opendal operator kind: "@ + kind),
            ErrorView::TempNotFound(key) => Some("temp blob not found: "@ + key),
            ErrorView::StoredNotFound(cid) => Some("stored blob not found: "@ + cid),
            ErrorView::QuarantinedNotFound(cid) => Some("quarantined blob not found: "@ + cid),
        }
    }
}

impl View for BlobStoreError {
    type V = ErrorView;

    open spec fn view(&self) -> ErrorView {
        match *self {
            BlobStoreError::BlobNotFound(_) => ErrorView::BlobNotFound,
            BlobStoreError::Backend(err) => ErrorView::Backend(err),
            BlobStoreError::UnsupportedKind(kind) => ErrorView::UnsupportedKind(kind@),
            BlobStoreError::TempNotFound(key) => ErrorView::TempNotFound(key@),
            BlobStoreError::StoredNotFound(cid) => ErrorView::StoredNotFound(cid@),
            BlobStoreError::QuarantinedNotFound(cid) => ErrorView::QuarantinedNotFound(cid@),
        }
    }
}

/// A message says what was not found or is not supported, and then names it, and
/// it is worded for every error but one of the backend.
pub proof fn messages_name_what_is_missing(name: Seq<char>, err: opendal::Error)
    ensures
        ErrorView::BlobNotFound.message() == Some("Blob not found"@),
        ErrorView::Backend(err).message() is None,
        ErrorView::UnsupportedKind(name).message() == Some(
            "unsupported opendal operator kind: "@ + name,
        ),
        ErrorView::TempNotFound(name).message() == Some("temp blob not found: "@ + name),
        ErrorView::StoredNotFound(name).message() == Some("stored blob not found: "@ + name),
        ErrorView::QuarantinedNotFound(name).message() == Some(
            "quarantined blob not found: "@ + name,
        ),
{
}

/// An error is seen as what it is, with all that it names.
pub proof fn errors_are_seen_as_they_are(err: BlobStoreError)
    ensures
        match err {
            BlobStoreError::BlobNotFound(_) => err@ == ErrorView::BlobNotFound,
            BlobStoreError::Backend(inner) => err@ == ErrorView::Backend(inner),
            BlobStoreError::UnsupportedKind(kind) => err@ == ErrorView::UnsupportedKind(kind@),
            BlobStoreError::TempNotFound(key) => err@ == ErrorView::TempNotFound(key@),
            BlobStoreError::StoredNotFound(cid) => err@ == ErrorView::StoredNotFound(cid@),
            BlobStoreError::QuarantinedNotFound(cid) => err@ == ErrorView::QuarantinedNotFound(cid@),
        },
{
}

impl BlobStoreError {
    /// The message of the error. For an error of the backend it is what the
    /// backend says, of which nothing is known.
    pub fn message(&self) -> (text: String)
        ensures
            self@ !is Backend ==> self@.message() == Some(text@),
            match *self {
                BlobStoreError::BlobNotFound(_) => text@ == "Blob not found"@,
                BlobStoreError::Backend(_) => true,
                BlobStoreError::UnsupportedKind(kind) => text@
                    == "unsupported opendal operator kind: "@ + kind@,
                BlobStoreError::TempNotFound(key) => text@ == "temp blob not found: "@ + key@,
                BlobStoreError::StoredNotFound(cid) => text@ == "stored blob not found: "@ + cid@,
                BlobStoreError::QuarantinedNotFound(cid) => text@ == "quarantined blob not found: "@
                    + cid@,
            },
    {
        match self {
            BlobStoreError::BlobNotFound(err) => err.message(),
            BlobStoreError::Backend(err) => backend_error_to_string(err),
            BlobStoreError::UnsupportedKind(kind) => "unsupported opendal operator kind: ".to_owned().concat(
                kind.as_str(),
            ),
            BlobStoreError::TempNotFound(key) => "temp blob not found: ".to_owned().concat(
                key.as_str(),
            ),
            BlobStoreError::StoredNotFound(cid) => "stored blob not found: ".to_owned().concat(
                cid.as_str(),
            ),
            BlobStoreError::QuarantinedNotFound(cid) => "quarantined blob not found: ".to_owned().concat(
                cid.as_str(),
            ),
        }
    }
}

} // verus!
