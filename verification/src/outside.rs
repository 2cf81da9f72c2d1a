//! What the library takes from outside crates. Verus reads none of the bodies
//! here: each contract is a claim about the function that its body calls.

use rand::RngCore;
use vstd::prelude::*;

verus! {

/// `cid::CidGeneric`, of which `cid::Cid` is the instance with room for 64
/// digest bytes.
#[verifier::external_type_specification]
#[verifier::external_body]
pub struct ExCid<const S: usize>(cid::CidGeneric<S>);

/// `bytes::Bytes`, an immutable byte buffer that is cheap to share.
#[verifier::external_type_specification]
#[verifier::external_body]
pub struct ExBytes(bytes::Bytes);

/// `opendal::Operator`, a handle on one storage backend.
#[verifier::external_type_specification]
#[verifier::external_body]
pub struct ExOperator(opendal::Operator);

/// `opendal::Error`, what a storage backend fails with.
#[verifier::external_type_specification]
#[verifier::external_body]
pub struct ExBackendError(opendal::Error);

/// `std::io::Error`, what reading a byte stream fails with.
#[verifier::external_type_specification]
#[verifier::external_body]
pub struct ExIoError(std::io::Error);

/// `aws_config::SdkConfig`, the settings that AWS clients share. The library
/// only hands it on.
#[verifier::external_type_specification]
#[verifier::external_body]
pub struct ExSdkConfig(aws_config::SdkConfig);

/// The text form of a content identifier: what its `Display` writes.
pub uninterp spec fn cid_text(cid: cid::Cid) -> Seq<char>;

/// The texts of content identifiers.
pub open spec fn cid_texts(cids: Seq<cid::Cid>) -> Seq<Seq<char>> {
    cids.map_values(|cid: cid::Cid| cid_text(cid))
}

/// There are as many texts as identifiers, each at the place of its own.
pub proof fn cid_texts_are_those_of_each(cids: Seq<cid::Cid>, i: int)
    ensures
        cid_texts(cids).len() == cids.len(),
        0 <= i < cids.len() ==> cid_texts(cids)[i] == cid_text(cids[i]),
{
}

/// `to_string` on a `cid::Cid`. It writes the base-58 digits of a version 0
/// identifier, and `b` and the lower-case base-32 digits of a version 1
/// identifier; both alphabets are letters and digits, so there is no `/` in
/// the text.
#[verifier::external_body]
pub(crate) fn cid_to_string(cid: &cid::Cid) -> (text: String)
    ensures
        text@ == cid_text(*cid),
        !text@.contains('/'),
{
    cid.to_string()
}

/// The bytes that a buffer holds.
pub uninterp spec fn bytes_view(buffer: bytes::Bytes) -> Seq<u8>;

/// `Bytes::from` on a vector: the buffer holds the bytes of the vector.
#[verifier::external_body]
pub(crate) fn bytes_from_vec(vec: Vec<u8>) -> (buffer: bytes::Bytes)
    ensures
        bytes_view(buffer) == vec@,
{
    bytes::Bytes::from(vec)
}

/// `Bytes::copy_from_slice`: the buffer holds a copy of the slice.
#[verifier::external_body]
pub(crate) fn bytes_from_slice(slice: &[u8]) -> (buffer: bytes::Bytes)
    ensures
        bytes_view(buffer) == slice@,
{
    bytes::Bytes::copy_from_slice(slice)
}

/// `to_vec` on a buffer: a copy of the bytes that it holds.
#[verifier::external_body]
pub(crate) fn bytes_to_vec(buffer: &bytes::Bytes) -> (vec: Vec<u8>)
    ensures
        vec@ == bytes_view(*buffer),
{
    buffer.to_vec()
}

/// Whether an error of a backend says that nothing is at the path: whether its
/// `kind` is `NotFound`.
pub uninterp spec fn backend_not_found(err: opendal::Error) -> bool;

/// `opendal::Error::kind`, held against `ErrorKind::NotFound`. The kind is a
/// field that is set when the error is made.
#[verifier::external_body]
pub(crate) fn is_not_found(err: &opendal::Error) -> (not_found: bool)
    ensures
        not_found == backend_not_found(*err),
{
    err.kind() == opendal::ErrorKind::NotFound
}

/// `to_string` on an `opendal::Error`. Nothing is said of the text: it ends with
/// what the source of the error writes of itself, which can be any error at all,
/// one of the operating system among them, whose words go by the machine.
#[verifier::external_body]
pub(crate) fn backend_error_to_string(err: &opendal::Error) -> (text: String) {
    err.to_string()
}

/// Whether an error of a byte stream says that the stream ended too early:
/// whether its `kind` is `UnexpectedEof`.
pub uninterp spec fn io_unexpected_eof(err: std::io::Error) -> bool;

/// `std::io::Error::kind`, held against `ErrorKind::UnexpectedEof`.
#[verifier::external_body]
pub(crate) fn is_unexpected_eof(err: &std::io::Error) -> (eof: bool)
    ensures
        eof == io_unexpected_eof(*err),
{
    err.kind() == std::io::ErrorKind::UnexpectedEof
}

/// The scheme of the backend that an operator works on.
pub uninterp spec fn operator_scheme(op: opendal::Operator) -> Seq<char>;

/// Whether an operator works where `location` leads: whether it was built with
/// `location` for the root of a file system, or for the bucket of S3. Different
/// texts may lead to the same place, and one operator then works at each.
pub uninterp spec fn operator_works_at(op: opendal::Operator, location: Seq<char>) -> bool;

/// `opendal::Operator::new` on an `Fs` builder whose `root` was set, and
/// `finish`. It creates the directory if there is none, and fails if it cannot,
/// so whether it succeeds rests on the disk; an empty root is always refused.
/// Which path the operator ends up under (the canonical form of the root) is
/// left unsaid.
#[verifier::external_body]
pub(crate) fn fs_operator(root: &str) -> (built: Result<opendal::Operator, opendal::Error>)
    ensures
        built matches Ok(op) ==> operator_scheme(op) == "fs"@ && operator_works_at(op, root@),
        root@.len() == 0 ==> built is Err,
{
    Ok(opendal::Operator::new(opendal::services::Fs::default().root(root))?.finish())
}

/// `opendal::Operator::new` on an `S3` builder whose `bucket` was set, and
/// `finish`. The region and the credentials come from the environment, so
/// whether it succeeds rests on the machine; an empty bucket is always refused.
/// A machine whose AWS profile gives a `duration_seconds` that is no number makes
/// the call panic, whatever the bucket, and so does one on which the name or the
/// value of an environment variable is not Unicode.
#[verifier::external_body]
pub(crate) fn s3_operator(bucket: &str) -> (built: Result<opendal::Operator, opendal::Error>)
    ensures
        built matches Ok(op) ==> operator_scheme(op) == "s3"@ && operator_works_at(op, bucket@),
        bucket@.len() == 0 ==> built is Err,
{
    Ok(opendal::Operator::new(opendal::services::S3::default().bucket(bucket))?.finish())
}

/// `clone` on an operator: another handle on the same backend.
#[verifier::external_body]
pub(crate) fn clone_operator(op: &opendal::Operator) -> (copy: opendal::Operator)
    ensures
        operator_scheme(copy) == operator_scheme(*op),
        forall|location: Seq<char>| #[trigger]
            operator_works_at(copy, location) == operator_works_at(*op, location),
{
    op.clone()
}

/// `next_u64` on `rand::thread_rng()`: a random number, of which nothing more
/// is known.
#[verifier::external_body]
pub(crate) fn random_u64() -> (n: u64) {
    rand::thread_rng().next_u64()
}

} // verus!
