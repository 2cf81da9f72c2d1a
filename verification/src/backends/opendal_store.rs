//! A blob store on a backend of the `opendal` crate, so that the same code can
//! drive any backend that the crate supports (local files, S3, ...).
//!
//! The blobs of an actor lie under three paths: `blocks/{did}/{cid}` for what
//! is stored, `tmp/{did}/{key}` for what is not stored yet, and
//! `quarantine/{did}/{cid}` for what was taken out of sight. Each operation of
//! the store is a [`Step`] that whoever holds the operator drives to its end.

use crate::backends::steps::{
    delete_each, delete_pending, keep_reply, remove_each, remove_pending, turns, AfterCall,
    AfterCallView, AfterExists, AfterExistsView, AfterRead, Call, CallView, Outcome,
    OutcomeView, Step, StepView,
};
use crate::error::{BlobStoreError, ErrorView};
use crate::outside::{
    cid_text, cid_texts, cid_to_string, clone_operator, fs_operator, operator_scheme,
    operator_works_at, random_u64, s3_operator,
};
use crate::text::{hex, same_text, to_hex};
use cid::Cid;
use opendal::Operator;
use vstd::prelude::*;
use vstd::string::*;

verus! {

/// The path of an actor's part of an area. It ends with `/`, so that no other
/// actor's part has a path that starts with it because the names start alike.
pub open spec fn actor_path(area: Seq<char>, did: Seq<char>) -> Seq<char> {
    area + "/"@ + did + "/"@
}

/// The path of one object in an actor's part of an area.
pub open spec fn object_path(area: Seq<char>, did: Seq<char>, name: Seq<char>) -> Seq<char> {
    actor_path(area, did) + name
}

/// Where the stored blob of identifier `cid` lies.
pub open spec fn stored_at(did: Seq<char>, cid: Seq<char>) -> Seq<char> {
    object_path("blocks"@, did, cid)
}

/// Where the temporary blob of key `key` lies.
pub open spec fn temp_at(did: Seq<char>, key: Seq<char>) -> Seq<char> {
    object_path("tmp"@, did, key)
}

/// Where the quarantined blob of identifier `cid` lies.
pub open spec fn quarantined_at(did: Seq<char>, cid: Seq<char>) -> Seq<char> {
    object_path("quarantine"@, did, cid)
}

/// Where blobs lie, letter by letter: in `blocks`, `tmp` and `quarantine`, in each
/// under the name of the actor, and there under their own.
pub proof fn paths_are_spelled_out(did: Seq<char>, name: Seq<char>)
    ensures
        stored_at(did, name) == "blocks/"@ + did + "/"@ + name,
        temp_at(did, name) == "tmp/"@ + did + "/"@ + name,
        quarantined_at(did, name) == "quarantine/"@ + did + "/"@ + name,
        actor_path("blocks"@, did) == "blocks/"@ + did + "/"@,
        actor_path("tmp"@, did) == "tmp/"@ + did + "/"@,
        actor_path("quarantine"@, did) == "quarantine/"@ + did + "/"@,
{
    reveal_strlit("/");
    reveal_strlit("blocks");
    reveal_strlit("blocks/");
    reveal_strlit("tmp");
    reveal_strlit("tmp/");
    reveal_strlit("quarantine");
    reveal_strlit("quarantine/");
    assert("blocks"@ + "/"@ =~= "blocks/"@);
    assert("tmp"@ + "/"@ =~= "tmp/"@);
    assert("quarantine"@ + "/"@ =~= "quarantine/"@);
}

/// The first call that each operation makes, with its path spelled out, and what
/// is to become of the answer: what is written is what was given, what is moved
/// goes from one area to the other under the same name, and what is read or asked
/// for is that very blob.
pub proof fn operations_make_these_calls(
    did: Seq<char>,
    key: Seq<char>,
    cid: Seq<char>,
    bytes: Seq<u8>,
    cids: Seq<Seq<char>>,
)
    ensures
        ({
            let stored = "blocks/"@ + did + "/"@ + cid;
            let temp = "tmp/"@ + did + "/"@ + key;
            let hidden = "quarantine/"@ + did + "/"@ + cid;
            &&& put_temp_step(did, key, bytes) == StepView::Perform(
                CallView::Write { path: temp, bytes },
                AfterCallView::FinishKey { key },
            )
            &&& make_permanent_step(did, key, cid) == StepView::Exists(
                stored,
                AfterExistsView::MakePermanent { from: temp, to: stored },
            )
            &&& put_permanent_step(did, cid, bytes) == StepView::Perform(
                CallView::Write { path: stored, bytes },
                AfterCallView::Finish,
            )
            &&& quarantine_step(did, cid) == StepView::Perform(
                CallView::Rename { from: stored, to: hidden },
                AfterCallView::Finish,
            )
            &&& unquarantine_step(did, cid) == StepView::Perform(
                CallView::Rename { from: hidden, to: stored },
                AfterCallView::Finish,
            )
            &&& get_bytes_step(did, cid) == StepView::Read(stored)
            &&& has_temp_step(did, key) == StepView::Exists(temp, AfterExistsView::Finish)
            &&& has_stored_step(did, cid) == StepView::Exists(stored, AfterExistsView::Finish)
            &&& delete_step(did, cid) == StepView::Perform(
                CallView::Delete { path: stored },
                AfterCallView::Finish,
            )
        }),
        delete_many_step(did, Seq::empty()) == StepView::Return(
            Ok::<OutcomeView, ErrorView>(OutcomeView::Done),
        ),
        (delete_many_step(did, seq![cid] + cids) matches StepView::Perform(
            CallView::Delete { path },
            AfterCallView::DeleteRest { paths },
        ) && path == "blocks/"@ + did + "/"@ + cid && paths.len() == cids.len() && forall|i: int|
            0 <= i < cids.len() ==> #[trigger] paths[i] == "blocks/"@ + did + "/"@ + cids[i]),
        (delete_all_step(did) matches StepView::Perform(
            CallView::RemoveAll { path },
            AfterCallView::RemoveRest { paths },
        ) && path == "blocks/"@ + did + "/"@ && paths == seq![
            "tmp/"@ + did + "/"@,
            "quarantine/"@ + did + "/"@,
        ]),
{
    paths_are_spelled_out(did, cid);
    paths_are_spelled_out(did, key);
    let all = seq![cid] + cids;
    let paths = all.map_values(|some: Seq<char>| stored_at(did, some));
    assert(paths[0] == stored_at(did, cid));
    assert forall|i: int| 0 <= i < cids.len() implies #[trigger] paths.skip(1)[i] == "blocks/"@
        + did + "/"@ + cids[i] by {
        assert(all[i + 1] == cids[i]);
        paths_are_spelled_out(did, cids[i]);
    }
    assert(seq![
        actor_path("blocks"@, did),
        actor_path("tmp"@, did),
        actor_path("quarantine"@, did),
    ].skip(1) =~= seq![actor_path("tmp"@, did), actor_path("quarantine"@, did)]);
}

/// The step that writes a temporary blob.
pub open spec fn put_temp_step(did: Seq<char>, key: Seq<char>, bytes: Seq<u8>) -> StepView {
    StepView::Perform(
        CallView::Write { path: temp_at(did, key), bytes },
        AfterCallView::FinishKey { key },
    )
}

/// The step that makes a temporary blob permanent.
pub open spec fn make_permanent_step(did: Seq<char>, key: Seq<char>, cid: Seq<char>) -> StepView {
    StepView::Exists(
        stored_at(did, cid),
        AfterExistsView::MakePermanent { from: temp_at(did, key), to: stored_at(did, cid) },
    )
}

/// The step that writes a stored blob.
pub open spec fn put_permanent_step(did: Seq<char>, cid: Seq<char>, bytes: Seq<u8>) -> StepView {
    StepView::Perform(
        CallView::Write { path: stored_at(did, cid), bytes },
        AfterCallView::Finish,
    )
}

/// The step that takes a stored blob out of sight.
pub open spec fn quarantine_step(did: Seq<char>, cid: Seq<char>) -> StepView {
    StepView::Perform(
        CallView::Rename { from: stored_at(did, cid), to: quarantined_at(did, cid) },
        AfterCallView::Finish,
    )
}

/// The step that brings a quarantined blob back.
pub open spec fn unquarantine_step(did: Seq<char>, cid: Seq<char>) -> StepView {
    StepView::Perform(
        CallView::Rename { from: quarantined_at(did, cid), to: stored_at(did, cid) },
        AfterCallView::Finish,
    )
}

/// The step that reads a stored blob.
pub open spec fn get_bytes_step(did: Seq<char>, cid: Seq<char>) -> StepView {
    StepView::Read(stored_at(did, cid))
}

/// The step that asks for a temporary blob.
pub open spec fn has_temp_step(did: Seq<char>, key: Seq<char>) -> StepView {
    StepView::Exists(temp_at(did, key), AfterExistsView::Finish)
}

/// The step that asks for a stored blob.
pub open spec fn has_stored_step(did: Seq<char>, cid: Seq<char>) -> StepView {
    StepView::Exists(stored_at(did, cid), AfterExistsView::Finish)
}

/// The step that deletes a stored blob.
pub open spec fn delete_step(did: Seq<char>, cid: Seq<char>) -> StepView {
    StepView::Perform(CallView::Delete { path: stored_at(did, cid) }, AfterCallView::Finish)
}

/// The step that deletes stored blobs.
pub open spec fn delete_many_step(did: Seq<char>, cids: Seq<Seq<char>>) -> StepView {
    delete_each(cids.map_values(|cid: Seq<char>| stored_at(did, cid)))
}

/// The step that deletes all that the actor has.
pub open spec fn delete_all_step(did: Seq<char>) -> StepView {
    remove_each(
        seq![
            actor_path("blocks"@, did),
            actor_path("tmp"@, did),
            actor_path("quarantine"@, did),
        ],
    )
}

/// The blob store of one actor.
#[derive(Debug)]
pub struct OpendalBlobStore {
    /// The backend.
    pub op: Operator,
    /// The actor.
    pub did: String,
}

impl Clone for OpendalBlobStore {
    fn clone(&self) -> (copy: Self)
        ensures
            operator_scheme(copy.op) == operator_scheme(self.op),
            forall|location: Seq<char>| #[trigger]
                operator_works_at(copy.op, location) == operator_works_at(self.op, location),
            copy.did@ == self.did@,
    {
        OpendalBlobStore { op: clone_operator(&self.op), did: self.did.clone() }
    }
}

/// Builds the path of an actor's part of an area.
fn join_actor(area: &str, did: &str) -> (path: String)
    ensures
        path@ == actor_path(area@, did@),
{
    area.to_owned().concat("/").concat(did).concat("/")
}

/// Builds the path of an object in an actor's part of an area.
fn join_object(area: &str, did: &str, name: &str) -> (path: String)
    ensures
        path@ == object_path(area@, did@, name@),
{
    join_actor(area, did).concat(name)
}

/// The key that stands for the random number `n`: its sixteen hexadecimal
/// digits.
pub fn key_of(n: u64) -> (key: String)
    ensures
        key@ == hex(n as nat, 16),
{
    to_hex(n, 16)
}

/// Makes up a key for a temporary blob.
pub fn gen_key() -> (key: String)
    ensures
        exists|n: u64| key@ == #[trigger] hex(n as nat, 16),
{
    let n: u64 = random_u64();
    key_of(n)
}

/// A backend, and where on it the blobs are to lie.
#[derive(Debug)]
pub enum BackendChoice {
    /// The local file system, under the directory `root`.
    Fs { root: String },
    /// S3, in the bucket `bucket`.
    S3 { bucket: String },
}

/// Tells which backend is meant by the kind `fs`, with `bucket` for its root
/// directory, or `s3`, with `bucket` for its bucket. There is no other kind.
pub fn choose_backend(kind: &str, bucket: &str) -> (choice: Result<BackendChoice, BlobStoreError>)
    ensures
        match choice {
            Ok(BackendChoice::Fs { root }) => kind@ == "fs"@ && root@ == bucket@,
            Ok(BackendChoice::S3 { bucket: name }) => kind@ == "s3"@ && name@ == bucket@,
            Err(err) => {
                &&& kind@ != "fs"@
                &&& kind@ != "s3"@
                &&& err@ == ErrorView::UnsupportedKind(kind@)
            },
        },
{
    if same_text(kind, "fs") {
        Ok(BackendChoice::Fs { root: bucket.to_owned() })
    } else if same_text(kind, "s3") {
        Ok(BackendChoice::S3 { bucket: bucket.to_owned() })
    } else {
        Err(BlobStoreError::UnsupportedKind(kind.to_owned()))
    }
}

/// Builds an operator on the backend that [`choose_backend`] chooses. A kind
/// that there is not is refused. So is an empty `bucket`, by the backend, which
/// may refuse for reasons of its own too. (On a machine with a malformed AWS
/// profile, or with an environment variable that is not Unicode, the S3 backend
/// panics; no argument decides that.)
pub fn build_operator(kind: &str, bucket: &str) -> (built: Result<Operator, BlobStoreError>)
    ensures
        built matches Ok(op) ==> {
            &&& kind@ == "fs"@ || kind@ == "s3"@
            &&& bucket@.len() > 0
            &&& operator_scheme(op) == kind@
            &&& operator_works_at(op, bucket@)
        },
        built matches Err(err) ==> if kind@ == "fs"@ || kind@ == "s3"@ {
            err@ is Backend
        } else {
            err@ == ErrorView::UnsupportedKind(kind@)
        },
{
    match choose_backend(kind, bucket) {
        Ok(BackendChoice::Fs { root }) => keep_reply(fs_operator(root.as_str())),
        Ok(BackendChoice::S3 { bucket }) => keep_reply(s3_operator(bucket.as_str())),
        Err(err) => Err(err),
    }
}

/// Builds the blob store of the actor `did` on a backend that
/// [`build_operator`] builds: [`store_on`] what comes of that.
pub fn new_blobstore(kind: &str, bucket: &str, did: String) -> (built: Result<
    OpendalBlobStore,
    BlobStoreError,
>)
    ensures
        built matches Ok(store) ==> {
            &&& kind@ == "fs"@ || kind@ == "s3"@
            &&& bucket@.len() > 0
            &&& operator_scheme(store.op) == kind@
            &&& operator_works_at(store.op, bucket@)
            &&& store.did == did
        },
        built matches Err(err) ==> if kind@ == "fs"@ || kind@ == "s3"@ {
            err@ is Backend
        } else {
            err@ == ErrorView::UnsupportedKind(kind@)
        },
{
    store_on(build_operator(kind, bucket), did)
}

/// The blob store of the actor `did` on the operator that was built, or else the
/// error with which that failed.
pub fn store_on(built: Result<Operator, BlobStoreError>, did: String) -> (store: Result<
    OpendalBlobStore,
    BlobStoreError,
>)
    ensures
        match built {
            Ok(op) => store == Ok::<OpendalBlobStore, BlobStoreError>(OpendalBlobStore { op, did }),
            Err(err) => store == Err::<OpendalBlobStore, BlobStoreError>(err),
        },
{
    match built {
        Ok(op) => Ok(OpendalBlobStore::new(op, did)),
        Err(err) => Err(err),
    }
}

impl OpendalBlobStore {
    /// The blob store of the actor `did` on the backend of `op`.
    pub fn new(op: Operator, did: String) -> (store: Self)
        ensures
            store.op == op,
            store.did == did,
    {
        OpendalBlobStore { op, did }
    }

    /// Where the stored blob of `cid` lies.
    pub fn block_path(&self, cid: Cid) -> (path: String)
        ensures
            path@ == stored_at(self.did@, cid_text(cid)),
            path@ == "blocks/"@ + self.did@ + "/"@ + cid_text(cid),
            !cid_text(cid).contains('/'),
    {
        proof {
            paths_are_spelled_out(self.did@, cid_text(cid));
        }
        let text = cid_to_string(&cid);
        join_object("blocks", self.did.as_str(), text.as_str())
    }

    /// Where the temporary blob of `key` lies.
    pub fn tmp_path(&self, key: &str) -> (path: String)
        ensures
            path@ == temp_at(self.did@, key@),
            path@ == "tmp/"@ + self.did@ + "/"@ + key@,
    {
        proof {
            paths_are_spelled_out(self.did@, key@);
        }
        join_object("tmp", self.did.as_str(), key)
    }

    /// Where the quarantined blob of `cid` lies.
    pub fn quarantine_path(&self, cid: Cid) -> (path: String)
        ensures
            path@ == quarantined_at(self.did@, cid_text(cid)),
            path@ == "quarantine/"@ + self.did@ + "/"@ + cid_text(cid),
            !cid_text(cid).contains('/'),
    {
        proof {
            paths_are_spelled_out(self.did@, cid_text(cid));
        }
        let text = cid_to_string(&cid);
        join_object("quarantine", self.did.as_str(), text.as_str())
    }

    /// Writes a temporary blob under a key that is made up, and gives out the
    /// key.
    pub fn put_temp(&self, bytes: Vec<u8>) -> (step: Step)
        ensures
            exists|n: u64|
                step@ == put_temp_step(self.did@, #[trigger] hex(n as nat, 16), bytes@),
            (step matches Step::Perform(
                Call::Write { path, bytes: content },
                AfterCall::FinishKey { key },
            ) && content == bytes && path@ == "tmp/"@ + self.did@ + "/"@ + key@ && exists|n: u64|
                key@ == #[trigger] hex(n as nat, 16)),
    {
        let key = gen_key();
        self.put_temp_as(key, bytes)
    }

    /// Writes a temporary blob under `key`, and gives out the key.
    pub fn put_temp_as(&self, key: String, bytes: Vec<u8>) -> (step: Step)
        ensures
            step@ == put_temp_step(self.did@, key@, bytes@),
            (step matches Step::Perform(
                Call::Write { path, bytes: content },
                AfterCall::FinishKey { key: given },
            ) && content == bytes && path@ == "tmp/"@ + self.did@ + "/"@ + key@ && given == key),
    {
        let path = self.tmp_path(key.as_str());
        Step::Perform(Call::Write { path, bytes }, AfterCall::FinishKey { key })
    }

    /// Makes the temporary blob of `key` the stored blob of `cid`; if there is
    /// one already, that one stays and the temporary blob goes.
    pub fn make_permanent(&self, key: String, cid: Cid) -> (step: Step)
        ensures
            step@ == make_permanent_step(self.did@, key@, cid_text(cid)),
            (step matches Step::Exists(asked, AfterExists::MakePermanent { from, to }) && from@
                == "tmp/"@ + self.did@ + "/"@ + key@ && to@ == "blocks/"@ + self.did@ + "/"@ + cid_text(cid) && asked@ == to@),
    {
        let from = self.tmp_path(key.as_str());
        let to = self.block_path(cid);
        Step::Exists(to.clone(), AfterExists::MakePermanent { from, to })
    }

    /// Writes the stored blob of `cid`.
    pub fn put_permanent(&self, cid: Cid, bytes: Vec<u8>) -> (step: Step)
        ensures
            step@ == put_permanent_step(self.did@, cid_text(cid), bytes@),
            (step matches Step::Perform(Call::Write { path, bytes: content }, AfterCall::Finish)
                && content == bytes && path@ == "blocks/"@ + self.did@ + "/"@ + cid_text(cid)),
    {
        let path = self.block_path(cid);
        Step::Perform(Call::Write { path, bytes }, AfterCall::Finish)
    }

    /// Takes the stored blob of `cid` out of sight.
    pub fn quarantine(&self, cid: Cid) -> (step: Step)
        ensures
            step@ == quarantine_step(self.did@, cid_text(cid)),
            (step matches Step::Perform(Call::Rename { from, to }, AfterCall::Finish) && from@
                == "blocks/"@ + self.did@ + "/"@ + cid_text(cid) && to@
                == "quarantine/"@ + self.did@ + "/"@ + cid_text(cid)),
    {
        let from = self.block_path(cid);
        let to = self.quarantine_path(cid);
        Step::Perform(Call::Rename { from, to }, AfterCall::Finish)
    }

    /// Brings the quarantined blob of `cid` back.
    pub fn unquarantine(&self, cid: Cid) -> (step: Step)
        ensures
            step@ == unquarantine_step(self.did@, cid_text(cid)),
            (step matches Step::Perform(Call::Rename { from, to }, AfterCall::Finish) && from@
                == "quarantine/"@ + self.did@ + "/"@ + cid_text(cid) && to@
                == "blocks/"@ + self.did@ + "/"@ + cid_text(cid)),
    {
        let from = self.quarantine_path(cid);
        let to = self.block_path(cid);
        Step::Perform(Call::Rename { from, to }, AfterCall::Finish)
    }

    /// Reads the stored blob of `cid`.
    pub fn get_bytes(&self, cid: Cid) -> (step: Step)
        ensures
            step@ == get_bytes_step(self.did@, cid_text(cid)),
            (step matches Step::Read(path, _) && path@ == "blocks/"@ + self.did@ + "/"@ + cid_text(cid)),
    {
        Step::Read(self.block_path(cid), AfterRead::Finish)
    }

    /// The path on which a reader is opened to stream the stored blob of `cid`.
    /// What the backend answers goes to [`stream_opened`], [`stream_started`] and
    /// [`stream_item`] in turn.
    ///
    /// [`stream_opened`]: crate::backends::stream::stream_opened
    /// [`stream_started`]: crate::backends::stream::stream_started
    /// [`stream_item`]: crate::backends::stream::stream_item
    pub fn get_stream(&self, cid: Cid) -> (path: String)
        ensures
            path@ == stored_at(self.did@, cid_text(cid)),
            path@ == "blocks/"@ + self.did@ + "/"@ + cid_text(cid),
    {
        self.block_path(cid)
    }

    /// Tells whether there is a temporary blob of `key`.
    pub fn has_temp(&self, key: String) -> (step: Step)
        ensures
            step@ == has_temp_step(self.did@, key@),
            (step matches Step::Exists(path, AfterExists::Finish) && path@ == "tmp/"@ + self.did@ + "/"@ + key@),
    {
        Step::Exists(self.tmp_path(key.as_str()), AfterExists::Finish)
    }

    /// Tells whether there is a stored blob of `cid`.
    pub fn has_stored(&self, cid: Cid) -> (step: Step)
        ensures
            step@ == has_stored_step(self.did@, cid_text(cid)),
            (step matches Step::Exists(path, AfterExists::Finish) && path@ == "blocks/"@ + self.did@ + "/"@ + cid_text(cid)),
    {
        Step::Exists(self.block_path(cid), AfterExists::Finish)
    }

    /// Deletes the stored blob of `cid`, if there is one.
    pub fn delete(&self, cid: Cid) -> (step: Step)
        ensures
            step@ == delete_step(self.did@, cid_text(cid)),
            (step matches Step::Perform(Call::Delete { path }, AfterCall::Finish) && path@
                == "blocks/"@ + self.did@ + "/"@ + cid_text(cid)),
    {
        let path = self.block_path(cid);
        Step::Perform(Call::Delete { path }, AfterCall::Finish)
    }

    /// Deletes the stored blobs of `cids`, as far as the backend lets it.
    pub fn delete_many(&self, cids: Vec<Cid>) -> (step: Step)
        ensures
            step@ == delete_many_step(self.did@, cid_texts(cids@)),
            if cids@.len() == 0 {
                step == Step::Return(Ok::<Outcome, BlobStoreError>(Outcome::Done))
            } else {
                &&& step matches Step::Perform(
                    Call::Delete { path },
                    AfterCall::DeleteRest { pending },
                )
                &&& path@ == "blocks/"@ + self.did@ + "/"@ + cid_text(cids@[0])
                &&& pending@.len() == cids@.len() - 1
                &&& forall|i: int|
                    0 < i < cids@.len() ==> pending@[cids@.len() - 1 - i]@ == "blocks/"@ + self.did@
                        + "/"@ + cid_text(#[trigger] cids@[i])
            },
    {
        let ghost paths = cid_texts(cids@).map_values(
            |cid: Seq<char>| stored_at(self.did@, cid),
        );
        let mut pending: Vec<String> = Vec::new();
        let mut i: usize = cids.len();
        while i > 0
            invariant
                i <= cids@.len(),
                paths == cid_texts(cids@).map_values(|cid: Seq<char>| stored_at(self.did@, cid)),
                turns(pending@) == paths.skip(i as int),
                pending@.len() == cids@.len() - i,
                forall|k: int|
                    i <= k < cids@.len() ==> pending@[cids@.len() - 1 - k]@ == "blocks/"@ + self.did@
                        + "/"@ + cid_text(#[trigger] cids@[k]),
            decreases i,
        {
            i -= 1;
            let ghost before = pending@;
            pending.push(self.block_path(cids[i]));
            proof {
                assert(paths[i as int] == stored_at(self.did@, cid_text(cids@[i as int])));
                assert(turns(pending@) =~= seq![paths[i as int]] + turns(before));
                assert(paths.skip(i as int) =~= seq![paths[i as int]] + paths.skip(i + 1));
            }
        }
        assert(paths.skip(0) =~= paths);
        delete_pending(pending)
    }

    /// Deletes all that the actor has, in the three areas one after the other.
    pub fn delete_all(&self) -> (step: Option<Step>)
        ensures
            step matches Some(first) && first@ == delete_all_step(self.did@),
            (step matches Some(
                Step::Perform(Call::RemoveAll { path }, AfterCall::RemoveRest { pending }),
            ) && path@ == "blocks/"@ + self.did@ + "/"@ && pending@.len() == 2 && pending@[1]@
                == "tmp/"@ + self.did@ + "/"@ && pending@[0]@ == "quarantine/"@ + self.did@ + "/"@),
    {
        proof {
            paths_are_spelled_out(self.did@, Seq::empty());
        }
        let did = self.did.as_str();
        let mut pending: Vec<String> = Vec::new();
        pending.push(join_actor("quarantine", did));
        pending.push(join_actor("tmp", did));
        pending.push(join_actor("blocks", did));
        assert(turns(pending@) =~= seq![
            actor_path("blocks"@, did@),
            actor_path("tmp"@, did@),
            actor_path("quarantine"@, did@),
        ]);
        Some(remove_pending(pending))
    }
}

} // verus!
