//! What the operations of an [`OpendalBlobStore`] come to on a backend that
//! keeps objects by their paths: a write is read back, a delete takes away one
//! object, a rename moves one, and nothing else changes.
//!
//! Two things are taken for granted of the backend.
//!
//! - It can rename. The local file system can. S3 cannot: there a rename fails,
//!   and with it making a blob permanent that is not stored yet, quarantine and
//!   its end. [`failures_are_told`] tells what comes of that.
//! - It keeps objects by the very text of their paths. `opendal` trims blanks
//!   around a path and `/` in front of it, makes one `/` of several in a row, and
//!   takes a path that ends in `/` for a directory; a file system takes `.` and
//!   `..` for directories too. So the laws are for actors and blobs of which the
//!   paths are left as they are: their names are not empty, have no blank at
//!   their end, and are not `.` or `..`; there is no `/` in the names of blobs,
//!   and none at the ends of those of actors, nor two in a row. The texts of
//!   content identifiers and the keys that the store makes up are such names.
//!
//! [`OpendalBlobStore`]: crate::backends::opendal_store::OpendalBlobStore

use crate::backends::opendal_store::{
    actor_path, delete_all_step, delete_many_step, delete_step, get_bytes_step, has_stored_step,
    has_temp_step, make_permanent_step, object_path, put_permanent_step, put_temp_step,
    quarantine_step, quarantined_at, stored_at, temp_at, unquarantine_step,
};
use crate::backends::steps::{
    after_read, delete_each, remove_each, translated, AfterCallView, AfterExistsView, CallView, OutcomeView,
    StepView,
};
use crate::backends::stream::{
    brings_on, delivered, ends, items_of, stream_ends, stream_gives_what_is_read, streamed, Polled,
};
use crate::error::ErrorView;
use crate::outside::backend_not_found;
use crate::state::BlobState;
use vstd::prelude::*;

verus! {

/// What lies on a backend.
pub type Objects = Map<Seq<char>, Seq<u8>>;

/// What is left of `objects` without those whose path starts with `path`.
pub open spec fn without_prefix(objects: Objects, path: Seq<char>) -> Objects {
    objects.remove_keys(Set::new(|at: Seq<char>| path.is_prefix_of(at)))
}

/// The answer to a call, and what lies on the backend afterwards. `missing` is
/// the error that the backend answers with where nothing lies.
pub open spec fn perform(call: CallView, objects: Objects, missing: opendal::Error) -> (
    Result<(), opendal::Error>,
    Objects,
) {
    match call {
        CallView::Write { path, bytes } => (Ok(()), objects.insert(path, bytes)),
        CallView::Delete { path } => (Ok(()), objects.remove(path)),
        CallView::Rename { from, to } => if objects.contains_key(from) {
            (Ok(()), objects.remove(from).insert(to, objects[from]))
        } else {
            (Err(missing), objects)
        },
        CallView::RemoveAll { path } => (Ok(()), without_prefix(objects, path)),
    }
}

/// How many calls an operation can still make.
pub open spec fn calls_left(step: StepView) -> nat {
    match step {
        StepView::Perform(_, AfterCallView::DeleteRest { paths }) => 1 + paths.len(),
        StepView::Perform(_, AfterCallView::RemoveRest { paths }) => 1 + paths.len(),
        StepView::Perform(_, _) => 1,
        StepView::Exists(_, AfterExistsView::MakePermanent { .. }) => 2,
        StepView::Exists(_, AfterExistsView::Finish) => 1,
        StepView::Read(_) => 1,
        StepView::Return(_) => 0,
    }
}

/// What an operation comes to: what it gives back, and what lies on the backend
/// afterwards.
pub open spec fn run(step: StepView, objects: Objects, missing: opendal::Error) -> (
    Result<OutcomeView, ErrorView>,
    Objects,
)
    decreases calls_left(step),
{
    match step {
        StepView::Return(result) => (result, objects),
        StepView::Read(path) => run(
            after_read(
                if objects.contains_key(path) {
                    Ok(objects[path])
                } else {
                    Err(missing)
                },
            ),
            objects,
            missing,
        ),
        StepView::Exists(path, after) => run(
            after.resumed(Ok(objects.contains_key(path))),
            objects,
            missing,
        ),
        StepView::Perform(call, after) => {
            let (reply, left) = perform(call, objects, missing);
            run(after.resumed(reply), left, missing)
        },
    }
}

/// The calls that an operation makes when they are answered with `replies`, and
/// where it then stands.
pub open spec fn follow(step: StepView, replies: Seq<Result<(), opendal::Error>>) -> (
    Seq<CallView>,
    StepView,
)
    decreases replies.len(),
{
    match step {
        StepView::Perform(call, after) => if replies.len() == 0 {
            (Seq::empty(), step)
        } else {
            let (calls, end) = follow(after.resumed(replies[0]), replies.skip(1));
            (seq![call] + calls, end)
        },
        _ => (Seq::empty(), step),
    }
}

/// The three areas keep apart: no stored, temporary and quarantined blob share a
/// path, whoever they belong to.
pub proof fn areas_are_disjoint(
    did: Seq<char>,
    name: Seq<char>,
    other_did: Seq<char>,
    other_name: Seq<char>,
)
    ensures
        stored_at(did, name) != temp_at(other_did, other_name),
        stored_at(did, name) != quarantined_at(other_did, other_name),
        temp_at(did, name) != quarantined_at(other_did, other_name),
{
    reveal_strlit("blocks");
    reveal_strlit("tmp");
    reveal_strlit("quarantine");
    assert(stored_at(did, name)[0] == 'b');
    assert(temp_at(other_did, other_name)[0] == 't');
    assert(temp_at(did, name)[0] == 't');
    assert(quarantined_at(other_did, other_name)[0] == 'q');
}

/// Within an area an actor's blobs of different names lie at different paths.
pub proof fn names_are_kept_apart(did: Seq<char>, name: Seq<char>, other_name: Seq<char>)
    requires
        name != other_name,
    ensures
        stored_at(did, name) != stored_at(did, other_name),
        temp_at(did, name) != temp_at(did, other_name),
        quarantined_at(did, name) != quarantined_at(did, other_name),
{
    lemma_same_prefix("blocks"@, did, name, other_name);
    lemma_same_prefix("tmp"@, did, name, other_name);
    lemma_same_prefix("quarantine"@, did, name, other_name);
}

proof fn lemma_same_prefix(
    area: Seq<char>,
    did: Seq<char>,
    name: Seq<char>,
    other_name: Seq<char>,
)
    requires
        name != other_name,
    ensures
        object_path(area, did, name) != object_path(area, did, other_name),
{
    let start = actor_path(area, did);
    if object_path(area, did, name) == object_path(area, did, other_name) {
        assert(object_path(area, did, name).skip(start.len() as int) =~= name);
        assert(object_path(area, did, other_name).skip(start.len() as int) =~= other_name);
    }
}

/// Whether `/` cannot blur where the name of an actor ends and that of a blob
/// starts: there is none in the names of the blobs, or none in those of the
/// actors.
pub open spec fn told_apart(
    did: Seq<char>,
    name: Seq<char>,
    other_did: Seq<char>,
    other_name: Seq<char>,
) -> bool {
    ||| !name.contains('/') && !other_name.contains('/')
    ||| !did.contains('/') && !other_did.contains('/')
}

/// The blobs of different actors lie at different paths, as long as there is no
/// `/` in the names of the blobs, whatever there is in those of the actors, or
/// the other way round.
pub proof fn actors_are_kept_apart(
    did: Seq<char>,
    name: Seq<char>,
    other_did: Seq<char>,
    other_name: Seq<char>,
)
    requires
        did != other_did,
        told_apart(did, name, other_did, other_name),
    ensures
        stored_at(did, name) != stored_at(other_did, other_name),
        temp_at(did, name) != temp_at(other_did, other_name),
        quarantined_at(did, name) != quarantined_at(other_did, other_name),
{
    lemma_different_actors("blocks"@, did, name, other_did, other_name);
    lemma_different_actors("tmp"@, did, name, other_did, other_name);
    lemma_different_actors("quarantine"@, did, name, other_did, other_name);
}

proof fn lemma_different_actors(
    area: Seq<char>,
    did: Seq<char>,
    name: Seq<char>,
    other_did: Seq<char>,
    other_name: Seq<char>,
)
    requires
        did != other_did,
        told_apart(did, name, other_did, other_name),
    ensures
        object_path(area, did, name) != object_path(area, other_did, other_name),
{
    reveal_strlit("/");
    let path = object_path(area, did, name);
    let start = area.len() as int + 1;
    let slash = actor_path(area, did).len() - 1;
    let other_slash = actor_path(area, other_did).len() - 1;
    if path == object_path(area, other_did, other_name) {
        assert(path.len() == slash + 1 + name.len());
        assert(path.len() == other_slash + 1 + other_name.len());
        assert(path[slash] == '/');
        assert(path[other_slash] == '/');
        if slash < other_slash {
            assert(path[other_slash] == name[other_slash - slash - 1]);
            assert(path[slash] == other_did[slash - start]);
        } else if other_slash < slash {
            assert(path[slash] == other_name[slash - other_slash - 1]);
            assert(path[other_slash] == did[other_slash - start]);
        }
        assert(path.subrange(start, slash) =~= did);
        assert(path.subrange(start, other_slash) =~= other_did);
    }
}

/// A temporary blob is written, and its key given out.
pub proof fn put_temp_writes(
    did: Seq<char>,
    key: Seq<char>,
    bytes: Seq<u8>,
    objects: Objects,
    missing: opendal::Error,
)
    ensures
        run(put_temp_step(did, key, bytes), objects, missing) == (
            Ok::<OutcomeView, ErrorView>(OutcomeView::Key(key)),
            objects.insert(temp_at(did, key), bytes),
        ),
{
    reveal_with_fuel(run, 2);
}

/// A stored blob is written, over the one that was there.
pub proof fn put_permanent_writes(
    did: Seq<char>,
    cid: Seq<char>,
    bytes: Seq<u8>,
    objects: Objects,
    missing: opendal::Error,
)
    ensures
        run(put_permanent_step(did, cid, bytes), objects, missing) == (
            Ok::<OutcomeView, ErrorView>(OutcomeView::Done),
            objects.insert(stored_at(did, cid), bytes),
        ),
{
    reveal_with_fuel(run, 2);
}

/// Making a temporary blob permanent moves it, unless a blob is stored already:
/// then that one stays as it is and the temporary one goes, be it there or not.
/// Where there is neither, the answer is that there is no such blob.
pub proof fn make_permanent_moves(
    did: Seq<char>,
    key: Seq<char>,
    cid: Seq<char>,
    objects: Objects,
    missing: opendal::Error,
)
    requires
        backend_not_found(missing),
    ensures
        run(make_permanent_step(did, key, cid), objects, missing) == ({
            let from = temp_at(did, key);
            let to = stored_at(did, cid);
            if objects.contains_key(to) {
                (Ok::<OutcomeView, ErrorView>(OutcomeView::Done), objects.remove(from))
            } else if objects.contains_key(from) {
                (Ok(OutcomeView::Done), objects.remove(from).insert(to, objects[from]))
            } else {
                (Err(ErrorView::BlobNotFound), objects)
            }
        }),
{
    reveal_with_fuel(run, 3);
}

/// Quarantine moves a stored blob out of sight; where there is none, the answer
/// is that there is no such blob.
pub proof fn quarantine_moves(
    did: Seq<char>,
    cid: Seq<char>,
    objects: Objects,
    missing: opendal::Error,
)
    requires
        backend_not_found(missing),
    ensures
        run(quarantine_step(did, cid), objects, missing) == ({
            let from = stored_at(did, cid);
            if objects.contains_key(from) {
                (
                    Ok::<OutcomeView, ErrorView>(OutcomeView::Done),
                    objects.remove(from).insert(quarantined_at(did, cid), objects[from]),
                )
            } else {
                (Err(ErrorView::BlobNotFound), objects)
            }
        }),
{
    reveal_with_fuel(run, 2);
}

/// Unquarantine moves a quarantined blob back; where there is none, the answer
/// is that there is no such blob.
pub proof fn unquarantine_moves(
    did: Seq<char>,
    cid: Seq<char>,
    objects: Objects,
    missing: opendal::Error,
)
    requires
        backend_not_found(missing),
    ensures
        run(unquarantine_step(did, cid), objects, missing) == ({
            let from = quarantined_at(did, cid);
            if objects.contains_key(from) {
                (
                    Ok::<OutcomeView, ErrorView>(OutcomeView::Done),
                    objects.remove(from).insert(stored_at(did, cid), objects[from]),
                )
            } else {
                (Err(ErrorView::BlobNotFound), objects)
            }
        }),
{
    reveal_with_fuel(run, 2);
}

/// A stored blob is read as it lies there; where there is none, the answer is
/// that there is no such blob. Reading changes nothing.
pub proof fn get_bytes_reads(
    did: Seq<char>,
    cid: Seq<char>,
    objects: Objects,
    missing: opendal::Error,
)
    requires
        backend_not_found(missing),
    ensures
        run(get_bytes_step(did, cid), objects, missing) == (
            if objects.contains_key(stored_at(did, cid)) {
                Ok::<OutcomeView, ErrorView>(OutcomeView::Content(objects[stored_at(did, cid)]))
            } else {
                Err(ErrorView::BlobNotFound)
            },
            objects,
        ),
{
    reveal_with_fuel(run, 2);
}

/// The two questions are answered by what lies there, and change nothing.
pub proof fn questions_are_answered(
    did: Seq<char>,
    name: Seq<char>,
    objects: Objects,
    missing: opendal::Error,
)
    ensures
        run(has_temp_step(did, name), objects, missing) == (
            Ok::<OutcomeView, ErrorView>(
                OutcomeView::Flag(objects.contains_key(temp_at(did, name))),
            ),
            objects,
        ),
        run(has_stored_step(did, name), objects, missing) == (
            Ok::<OutcomeView, ErrorView>(
                OutcomeView::Flag(objects.contains_key(stored_at(did, name))),
            ),
            objects,
        ),
{
    reveal_with_fuel(run, 2);
}

/// Deleting takes the stored blob away, and succeeds where there is none.
pub proof fn delete_takes_away(
    did: Seq<char>,
    cid: Seq<char>,
    objects: Objects,
    missing: opendal::Error,
)
    ensures
        run(delete_step(did, cid), objects, missing) == (
            Ok::<OutcomeView, ErrorView>(OutcomeView::Done),
            objects.remove(stored_at(did, cid)),
        ),
{
    reveal_with_fuel(run, 2);
}

/// Deleting many takes away the stored blob of each identifier, and nothing
/// else.
pub proof fn delete_many_takes_away(
    did: Seq<char>,
    cids: Seq<Seq<char>>,
    objects: Objects,
    missing: opendal::Error,
)
    ensures
        run(delete_many_step(did, cids), objects, missing) == (
            Ok::<OutcomeView, ErrorView>(OutcomeView::Done),
            objects.remove_keys(
                Set::new(
                    |at: Seq<char>|
                        exists|i: int|
                            0 <= i < cids.len() && at == stored_at(did, #[trigger] cids[i]),
                ),
            ),
        ),
{
    let paths = cids.map_values(|cid: Seq<char>| stored_at(did, cid));
    let gone = Set::new(
        |at: Seq<char>|
            exists|i: int| 0 <= i < cids.len() && at == stored_at(did, #[trigger] cids[i]),
    );
    lemma_delete_each(paths, objects, missing);
    assert forall|at: Seq<char>| paths.contains(at) <==> gone.contains(at) by {
        if paths.contains(at) {
            let i = choose|i: int| 0 <= i < paths.len() && paths[i] == at;
            assert(at == stored_at(did, cids[i]));
        }
        if gone.contains(at) {
            let i = choose|i: int| 0 <= i < cids.len() && at == stored_at(did, #[trigger] cids[i]);
            assert(paths[i] == at);
        }
    }
    assert(paths.to_set() =~= gone);
}

proof fn lemma_delete_each(paths: Seq<Seq<char>>, objects: Objects, missing: opendal::Error)
    ensures
        run(delete_each(paths), objects, missing) == (
            Ok::<OutcomeView, ErrorView>(OutcomeView::Done),
            objects.remove_keys(paths.to_set()),
        ),
    decreases paths.len(),
{
    if paths.len() == 0 {
        assert(objects.remove_keys(paths.to_set()) =~= objects);
    } else {
        let rest = paths.skip(1);
        lemma_delete_each(rest, objects.remove(paths[0]), missing);
        assert forall|at: Seq<char>| paths.contains(at) <==> at == paths[0] || rest.contains(at) by {
            if paths.contains(at) {
                let i = choose|i: int| 0 <= i < paths.len() && paths[i] == at;
                if i > 0 {
                    assert(rest[i - 1] == at);
                }
            }
            if rest.contains(at) {
                let i = choose|i: int| 0 <= i < rest.len() && rest[i] == at;
                assert(paths[i + 1] == at);
            }
        }
        assert(objects.remove(paths[0]).remove_keys(rest.to_set()) =~= objects.remove_keys(
            paths.to_set(),
        ));
    }
}

/// Deleting all takes away whatever lies in the actor's part of one of the three
/// areas, and nothing else.
pub proof fn delete_all_takes_away(did: Seq<char>, objects: Objects, missing: opendal::Error)
    ensures
        run(delete_all_step(did), objects, missing) == (
            Ok::<OutcomeView, ErrorView>(OutcomeView::Done),
            objects.remove_keys(
                Set::new(
                    |at: Seq<char>|
                        {
                            ||| actor_path("blocks"@, did).is_prefix_of(at)
                            ||| actor_path("tmp"@, did).is_prefix_of(at)
                            ||| actor_path("quarantine"@, did).is_prefix_of(at)
                        },
                ),
            ),
        ),
{
    let blocks = actor_path("blocks"@, did);
    let tmp = actor_path("tmp"@, did);
    let quarantine = actor_path("quarantine"@, did);
    let first = without_prefix(objects, blocks);
    let second = without_prefix(first, tmp);
    let third = without_prefix(second, quarantine);
    let paths = seq![blocks, tmp, quarantine];
    assert(paths.skip(1) =~= seq![tmp, quarantine]);
    assert(seq![tmp, quarantine].skip(1) =~= seq![quarantine]);
    assert(seq![quarantine].skip(1) =~= Seq::empty());
    reveal_with_fuel(run, 4);
    assert(third =~= objects.remove_keys(
        Set::new(
            |at: Seq<char>|
                {
                    ||| blocks.is_prefix_of(at)
                    ||| tmp.is_prefix_of(at)
                    ||| quarantine.is_prefix_of(at)
                },
        ),
    ));
}

/// After deleting all, the actor has no blob left, in whatever area and under
/// whatever name.
pub proof fn delete_all_leaves_nothing(
    did: Seq<char>,
    name: Seq<char>,
    objects: Objects,
    missing: opendal::Error,
)
    ensures
        ({
            let left = run(delete_all_step(did), objects, missing).1;
            &&& !left.contains_key(stored_at(did, name))
            &&& !left.contains_key(temp_at(did, name))
            &&& !left.contains_key(quarantined_at(did, name))
        }),
{
    delete_all_takes_away(did, objects, missing);
    lemma_actor_path_is_prefix("blocks"@, did, name);
    lemma_actor_path_is_prefix("tmp"@, did, name);
    lemma_actor_path_is_prefix("quarantine"@, did, name);
}

proof fn lemma_actor_path_is_prefix(area: Seq<char>, did: Seq<char>, name: Seq<char>)
    ensures
        actor_path(area, did).is_prefix_of(object_path(area, did, name)),
{
    assert(object_path(area, did, name).take(actor_path(area, did).len() as int) =~= actor_path(
        area,
        did,
    ));
}

/// Whether the part of the actor `did` of an area lies within that of another:
/// its name goes on from the other's after a `/`.
pub open spec fn within(did: Seq<char>, other_did: Seq<char>) -> bool {
    (other_did + "/"@).is_prefix_of(did)
}

/// An actor without `/` in its name lies within no other.
pub proof fn without_slash_within_none(did: Seq<char>, other_did: Seq<char>)
    requires
        !did.contains('/'),
    ensures
        !within(did, other_did),
{
    reveal_strlit("/");
    if within(did, other_did) {
        assert((other_did + "/"@)[other_did.len() as int] == did[other_did.len() as int]);
    }
}

/// Deleting all leaves the blobs of every other actor as they are that does not
/// lie within this one, as long as `/` does not blur which names are meant. How
/// the names start makes no difference.
pub proof fn delete_all_leaves_others(
    did: Seq<char>,
    other_did: Seq<char>,
    name: Seq<char>,
    objects: Objects,
    missing: opendal::Error,
)
    requires
        did != other_did,
        !within(other_did, did),
        told_apart(did, name, other_did, name),
    ensures
        same_blobs(run(delete_all_step(did), objects, missing).1, objects, other_did, name),
{
    lemma_not_in_part(did, other_did, name);
    delete_all_takes_away(did, objects, missing);
    reveal_strlit("blocks");
    reveal_strlit("tmp");
    reveal_strlit("quarantine");
    lemma_not_a_prefix("blocks"@, did, "blocks"@, other_did, name);
    lemma_not_a_prefix("blocks"@, did, "tmp"@, other_did, name);
    lemma_not_a_prefix("blocks"@, did, "quarantine"@, other_did, name);
    lemma_not_a_prefix("tmp"@, did, "blocks"@, other_did, name);
    lemma_not_a_prefix("tmp"@, did, "tmp"@, other_did, name);
    lemma_not_a_prefix("tmp"@, did, "quarantine"@, other_did, name);
    lemma_not_a_prefix("quarantine"@, did, "blocks"@, other_did, name);
    lemma_not_a_prefix("quarantine"@, did, "tmp"@, other_did, name);
    lemma_not_a_prefix("quarantine"@, did, "quarantine"@, other_did, name);
}

proof fn lemma_not_in_part(did: Seq<char>, other_did: Seq<char>, name: Seq<char>)
    requires
        did != other_did,
        !within(other_did, did),
        told_apart(did, name, other_did, name),
    ensures
        !(did + "/"@).is_prefix_of(other_did + "/"@ + name),
{
    reveal_strlit("/");
    let start = did + "/"@;
    let rest = other_did + "/"@ + name;
    if start.is_prefix_of(rest) {
        assert(start[did.len() as int] == rest[did.len() as int]);
        if did.len() < other_did.len() {
            assert(start =~= other_did.take(start.len() as int));
        } else if did.len() == other_did.len() {
            assert forall|i: int| 0 <= i < did.len() implies did[i] == other_did[i] by {
                assert(start[i] == rest[i]);
            }
            assert(did =~= other_did);
        } else {
            assert(start[other_did.len() as int] == rest[other_did.len() as int]);
            assert(did[other_did.len() as int] == '/');
            assert(name[did.len() - other_did.len() - 1] == '/');
        }
    }
}

proof fn lemma_not_a_prefix(
    area: Seq<char>,
    did: Seq<char>,
    other_area: Seq<char>,
    other_did: Seq<char>,
    name: Seq<char>,
)
    requires
        area.len() > 0,
        other_area.len() > 0,
        area == other_area || area[0] != other_area[0],
        !(did + "/"@).is_prefix_of(other_did + "/"@ + name),
    ensures
        !actor_path(area, did).is_prefix_of(object_path(other_area, other_did, name)),
{
    let start = actor_path(area, did);
    let path = object_path(other_area, other_did, name);
    if start.is_prefix_of(path) {
        assert(start[0] == path[0]);
        let rest = other_did + "/"@ + name;
        let skipped = (area + "/"@).len() as int;
        assert(path.skip(skipped) =~= rest);
        let part = did + "/"@;
        assert(start.skip(skipped) =~= part);
        assert forall|i: int| 0 <= i < part.len() implies part[i] == rest[i] by {
            assert(part[i] == start[i + skipped]);
            assert(rest[i] == path[i + skipped]);
        }
        assert(rest.len() == path.len() - skipped);
        assert(part =~= rest.take(part.len() as int));
    }
}

/// Whether the same lies at a path before and after, be it nothing.
pub open spec fn same_at(left: Objects, objects: Objects, at: Seq<char>) -> bool {
    &&& left.contains_key(at) == objects.contains_key(at)
    &&& objects.contains_key(at) ==> left[at] == objects[at]
}

/// An operation on a blob leaves every other object on the backend as it is.
pub proof fn other_objects_are_left_alone(
    did: Seq<char>,
    key: Seq<char>,
    cid: Seq<char>,
    bytes: Seq<u8>,
    cids: Seq<Seq<char>>,
    objects: Objects,
    missing: opendal::Error,
    at: Seq<char>,
)
    requires
        backend_not_found(missing),
        at != temp_at(did, key),
        at != stored_at(did, cid),
        at != quarantined_at(did, cid),
        forall|i: int| 0 <= i < cids.len() ==> at != stored_at(did, #[trigger] cids[i]),
    ensures
        same_at(run(put_temp_step(did, key, bytes), objects, missing).1, objects, at),
        same_at(run(make_permanent_step(did, key, cid), objects, missing).1, objects, at),
        same_at(run(put_permanent_step(did, cid, bytes), objects, missing).1, objects, at),
        same_at(run(quarantine_step(did, cid), objects, missing).1, objects, at),
        same_at(run(unquarantine_step(did, cid), objects, missing).1, objects, at),
        same_at(run(delete_step(did, cid), objects, missing).1, objects, at),
        same_at(run(delete_many_step(did, cids), objects, missing).1, objects, at),
{
    put_temp_writes(did, key, bytes, objects, missing);
    make_permanent_moves(did, key, cid, objects, missing);
    put_permanent_writes(did, cid, bytes, objects, missing);
    quarantine_moves(did, cid, objects, missing);
    unquarantine_moves(did, cid, objects, missing);
    delete_takes_away(did, cid, objects, missing);
    delete_many_takes_away(did, cids, objects, missing);
}

/// Whether an actor has the same blob, or none, under a name in each of the
/// three areas before and after.
pub open spec fn same_blobs(
    left: Objects,
    objects: Objects,
    did: Seq<char>,
    name: Seq<char>,
) -> bool {
    &&& same_at(left, objects, stored_at(did, name))
    &&& same_at(left, objects, temp_at(did, name))
    &&& same_at(left, objects, quarantined_at(did, name))
}

/// No operation of one actor changes a blob of another, as long as `/` does not
/// blur which names are meant. Where it deletes all, the other must not lie within
/// it either, as no actor does without `/` in its name.
pub proof fn other_actors_are_left_alone(
    did: Seq<char>,
    key: Seq<char>,
    cid: Seq<char>,
    bytes: Seq<u8>,
    cids: Seq<Seq<char>>,
    objects: Objects,
    missing: opendal::Error,
    other_did: Seq<char>,
    name: Seq<char>,
)
    requires
        backend_not_found(missing),
        did != other_did,
        told_apart(did, key, other_did, name),
        told_apart(did, cid, other_did, name),
        forall|i: int|
            0 <= i < cids.len() ==> told_apart(did, #[trigger] cids[i], other_did, name),
    ensures
        ({
            let after = |step: StepView| run(step, objects, missing).1;
            &&& same_blobs(after(put_temp_step(did, key, bytes)), objects, other_did, name)
            &&& same_blobs(after(make_permanent_step(did, key, cid)), objects, other_did, name)
            &&& same_blobs(after(put_permanent_step(did, cid, bytes)), objects, other_did, name)
            &&& same_blobs(after(quarantine_step(did, cid)), objects, other_did, name)
            &&& same_blobs(after(unquarantine_step(did, cid)), objects, other_did, name)
            &&& same_blobs(after(delete_step(did, cid)), objects, other_did, name)
            &&& same_blobs(after(delete_many_step(did, cids)), objects, other_did, name)
            &&& after(get_bytes_step(did, cid)) == objects
            &&& after(has_temp_step(did, key)) == objects
            &&& after(has_stored_step(did, cid)) == objects
            &&& !within(other_did, did) || !other_did.contains('/') ==> same_blobs(
                after(delete_all_step(did)),
                objects,
                other_did,
                name,
            )
        }),
{
    lemma_apart_from_others(did, key, other_did, name);
    lemma_apart_from_others(did, cid, other_did, name);
    assert forall|i: int| 0 <= i < cids.len() implies {
        &&& stored_at(other_did, name) != stored_at(did, #[trigger] cids[i])
        &&& temp_at(other_did, name) != stored_at(did, cids[i])
        &&& quarantined_at(other_did, name) != stored_at(did, cids[i])
    } by {
        lemma_apart_from_others(did, cids[i], other_did, name);
    }
    let stored = stored_at(other_did, name);
    let temp = temp_at(other_did, name);
    let quarantined = quarantined_at(other_did, name);
    other_objects_are_left_alone(did, key, cid, bytes, cids, objects, missing, stored);
    other_objects_are_left_alone(did, key, cid, bytes, cids, objects, missing, temp);
    other_objects_are_left_alone(did, key, cid, bytes, cids, objects, missing, quarantined);
    get_bytes_reads(did, cid, objects, missing);
    questions_are_answered(did, key, objects, missing);
    questions_are_answered(did, cid, objects, missing);
    if !other_did.contains('/') {
        without_slash_within_none(other_did, did);
    }
    if !within(other_did, did) {
        assert(told_apart(did, name, other_did, name));
        delete_all_leaves_others(did, other_did, name, objects, missing);
    }
}

proof fn lemma_apart_from_others(
    did: Seq<char>,
    name: Seq<char>,
    other_did: Seq<char>,
    other_name: Seq<char>,
)
    requires
        did != other_did,
        told_apart(did, name, other_did, other_name),
    ensures
        stored_at(other_did, other_name) != stored_at(did, name),
        stored_at(other_did, other_name) != temp_at(did, name),
        stored_at(other_did, other_name) != quarantined_at(did, name),
        temp_at(other_did, other_name) != stored_at(did, name),
        temp_at(other_did, other_name) != temp_at(did, name),
        temp_at(other_did, other_name) != quarantined_at(did, name),
        quarantined_at(other_did, other_name) != stored_at(did, name),
        quarantined_at(other_did, other_name) != temp_at(did, name),
        quarantined_at(other_did, other_name) != quarantined_at(did, name),
{
    actors_are_kept_apart(did, name, other_did, other_name);
    areas_are_disjoint(did, name, other_did, other_name);
    areas_are_disjoint(other_did, other_name, did, name);
}

/// A stored blob is read back as it was written.
pub proof fn get_bytes_after_put_permanent(
    did: Seq<char>,
    cid: Seq<char>,
    bytes: Seq<u8>,
    objects: Objects,
    missing: opendal::Error,
)
    requires
        backend_not_found(missing),
    ensures
        ({
            let left = run(put_permanent_step(did, cid, bytes), objects, missing).1;
            run(get_bytes_step(did, cid), left, missing).0 == Ok::<OutcomeView, ErrorView>(
                OutcomeView::Content(bytes),
            )
        }),
{
    put_permanent_writes(did, cid, bytes, objects, missing);
    get_bytes_reads(did, cid, objects.insert(stored_at(did, cid), bytes), missing);
}

/// The stream of a stored blob gives out what reading it at once gives: if the
/// reads deliver what lies at the path from which the stream is made, in whatever
/// pieces and however often nothing was there yet, and the source then ends,
/// the chunks together are the content that [`get_bytes_step`] comes to.
pub proof fn stream_gives_what_get_bytes_gives(
    did: Seq<char>,
    cid: Seq<char>,
    objects: Objects,
    missing: opendal::Error,
    polls: Seq<(Seq<u8>, Polled)>,
    last: (Seq<u8>, Polled),
    more: Seq<(Seq<u8>, Polled)>,
)
    requires
        objects.contains_key(stored_at(did, cid)),
        delivered(polls) == objects[stored_at(did, cid)],
        forall|i: int| 0 <= i < polls.len() ==> brings_on(#[trigger] polls[i]),
        ends(last),
    ensures
        run(get_bytes_step(did, cid), objects, missing).0 == Ok::<OutcomeView, ErrorView>(
            OutcomeView::Content(streamed(items_of(polls + seq![last] + more))),
        ),
{
    reveal_with_fuel(run, 2);
    stream_gives_what_is_read(polls);
    stream_ends(polls, last, more);
}

/// From a temporary blob to a permanent one: once written, it is there and not
/// stored yet (if it was not before); once made permanent, it is no longer
/// temporary, is stored, and is read back as it was written; and a second try to
/// make it permanent succeeds and changes nothing more.
pub proof fn temp_to_permanent(
    did: Seq<char>,
    key: Seq<char>,
    cid: Seq<char>,
    bytes: Seq<u8>,
    objects: Objects,
    missing: opendal::Error,
)
    requires
        backend_not_found(missing),
        !objects.contains_key(stored_at(did, cid)),
    ensures
        ({
            let temporary = run(put_temp_step(did, key, bytes), objects, missing).1;
            let (made, permanent) = run(make_permanent_step(did, key, cid), temporary, missing);
            &&& temporary.contains_key(temp_at(did, key))
            &&& !temporary.contains_key(stored_at(did, cid))
            &&& made == Ok::<OutcomeView, ErrorView>(OutcomeView::Done)
            &&& !permanent.contains_key(temp_at(did, key))
            &&& permanent.contains_key(stored_at(did, cid))
            &&& run(get_bytes_step(did, cid), permanent, missing).0 == Ok::<OutcomeView, ErrorView>(
                OutcomeView::Content(bytes),
            )
            &&& run(make_permanent_step(did, key, cid), permanent, missing) == (made, permanent)
        }),
{
    put_temp_writes(did, key, bytes, objects, missing);
    areas_are_disjoint(did, cid, did, key);
    let temporary = objects.insert(temp_at(did, key), bytes);
    make_permanent_moves(did, key, cid, temporary, missing);
    let permanent = temporary.remove(temp_at(did, key)).insert(stored_at(did, cid), bytes);
    get_bytes_reads(did, cid, permanent, missing);
    make_permanent_moves(did, key, cid, permanent, missing);
    assert(permanent.remove(temp_at(did, key)) =~= permanent);
}

/// What is stored stays as it is when a temporary blob is made permanent under
/// its identifier; the temporary blob goes.
pub proof fn make_permanent_keeps_what_is_stored(
    did: Seq<char>,
    key: Seq<char>,
    cid: Seq<char>,
    objects: Objects,
    missing: opendal::Error,
)
    requires
        backend_not_found(missing),
        objects.contains_key(stored_at(did, cid)),
    ensures
        ({
            let (made, left) = run(make_permanent_step(did, key, cid), objects, missing);
            &&& made == Ok::<OutcomeView, ErrorView>(OutcomeView::Done)
            &&& left.contains_key(stored_at(did, cid))
            &&& left[stored_at(did, cid)] == objects[stored_at(did, cid)]
            &&& !left.contains_key(temp_at(did, key))
        }),
{
    make_permanent_moves(did, key, cid, objects, missing);
    areas_are_disjoint(did, cid, did, key);
}

/// A blob in quarantine is not stored and cannot be read; brought back it is
/// what it was, and everything else too (but for what lay in quarantine under
/// the identifier before, which is gone).
pub proof fn quarantine_and_back(
    did: Seq<char>,
    cid: Seq<char>,
    objects: Objects,
    missing: opendal::Error,
)
    requires
        backend_not_found(missing),
        objects.contains_key(stored_at(did, cid)),
    ensures
        ({
            let (hidden, away) = run(quarantine_step(did, cid), objects, missing);
            let (shown, back) = run(unquarantine_step(did, cid), away, missing);
            &&& hidden == Ok::<OutcomeView, ErrorView>(OutcomeView::Done)
            &&& run(has_stored_step(did, cid), away, missing).0 == Ok::<OutcomeView, ErrorView>(
                OutcomeView::Flag(false),
            )
            &&& run(get_bytes_step(did, cid), away, missing).0 == Err::<OutcomeView, ErrorView>(
                ErrorView::BlobNotFound,
            )
            &&& shown == Ok::<OutcomeView, ErrorView>(OutcomeView::Done)
            &&& back == objects.remove(quarantined_at(did, cid))
            &&& back.contains_key(stored_at(did, cid))
            &&& run(unquarantine_step(did, cid), back, missing).0 == Err::<OutcomeView, ErrorView>(
                ErrorView::BlobNotFound,
            )
        }),
{
    areas_are_disjoint(did, cid, did, cid);
    quarantine_moves(did, cid, objects, missing);
    let away = run(quarantine_step(did, cid), objects, missing).1;
    questions_are_answered(did, cid, away, missing);
    get_bytes_reads(did, cid, away, missing);
    unquarantine_moves(did, cid, away, missing);
    let back = run(unquarantine_step(did, cid), away, missing).1;
    assert(back =~= objects.remove(quarantined_at(did, cid)));
    unquarantine_moves(did, cid, back, missing);
}

/// Deleting a blob a second time succeeds and changes nothing.
pub proof fn delete_is_idempotent(
    did: Seq<char>,
    cid: Seq<char>,
    objects: Objects,
    missing: opendal::Error,
)
    ensures
        ({
            let (first, left) = run(delete_step(did, cid), objects, missing);
            &&& first == Ok::<OutcomeView, ErrorView>(OutcomeView::Done)
            &&& run(delete_step(did, cid), left, missing) == (first, left)
        }),
{
    delete_takes_away(did, cid, objects, missing);
    let left = objects.remove(stored_at(did, cid));
    delete_takes_away(did, cid, left, missing);
    assert(left.remove(stored_at(did, cid)) =~= left);
}

/// Deleting many asks the backend to delete each blob in turn and then succeeds,
/// however each call ends.
pub proof fn delete_many_goes_on(
    did: Seq<char>,
    cids: Seq<Seq<char>>,
    replies: Seq<Result<(), opendal::Error>>,
)
    requires
        replies.len() == cids.len(),
    ensures
        follow(delete_many_step(did, cids), replies) == (
            cids.map_values(|cid: Seq<char>| CallView::Delete { path: stored_at(did, cid) }),
            StepView::Return(Ok(OutcomeView::Done)),
        ),
{
    let paths = cids.map_values(|cid: Seq<char>| stored_at(did, cid));
    lemma_delete_each_goes_on(paths, replies);
    assert(paths.map_values(|path: Seq<char>| CallView::Delete { path }) =~= cids.map_values(
        |cid: Seq<char>| CallView::Delete { path: stored_at(did, cid) },
    ));
}

proof fn lemma_delete_each_goes_on(
    paths: Seq<Seq<char>>,
    replies: Seq<Result<(), opendal::Error>>,
)
    requires
        replies.len() == paths.len(),
    ensures
        follow(delete_each(paths), replies) == (
            paths.map_values(|path: Seq<char>| CallView::Delete { path }),
            StepView::Return(Ok(OutcomeView::Done)),
        ),
    decreases paths.len(),
{
    let calls = paths.map_values(|path: Seq<char>| CallView::Delete { path });
    if paths.len() == 0 {
        assert(calls =~= Seq::empty());
    } else {
        let rest = paths.skip(1);
        lemma_delete_each_goes_on(rest, replies.skip(1));
        assert(calls =~= seq![CallView::Delete { path: paths[0] }] + rest.map_values(
            |path: Seq<char>| CallView::Delete { path },
        ));
    }
}

/// Deleting all stops at the first area that the backend fails on, and tells
/// the error.
pub proof fn delete_all_stops_at_an_error(
    did: Seq<char>,
    replies: Seq<Result<(), opendal::Error>>,
    failed: int,
)
    requires
        0 <= failed < 3,
        replies.len() == failed + 1,
        forall|i: int| 0 <= i < failed ==> (#[trigger] replies[i]) is Ok,
        replies[failed] is Err,
    ensures
        follow(delete_all_step(did), replies) == (
            seq![
                CallView::RemoveAll { path: actor_path("blocks"@, did) },
                CallView::RemoveAll { path: actor_path("tmp"@, did) },
                CallView::RemoveAll { path: actor_path("quarantine"@, did) },
            ].take(failed + 1),
            StepView::Return(Err(translated(replies[failed]->Err_0))),
        ),
{
    let paths = seq![
        actor_path("blocks"@, did),
        actor_path("tmp"@, did),
        actor_path("quarantine"@, did),
    ];
    lemma_remove_each_stops(paths, replies, failed);
    assert(paths.map_values(|path: Seq<char>| CallView::RemoveAll { path }).take(failed + 1)
        =~= seq![
        CallView::RemoveAll { path: actor_path("blocks"@, did) },
        CallView::RemoveAll { path: actor_path("tmp"@, did) },
        CallView::RemoveAll { path: actor_path("quarantine"@, did) },
    ].take(failed + 1));
}

proof fn lemma_remove_each_stops(
    paths: Seq<Seq<char>>,
    replies: Seq<Result<(), opendal::Error>>,
    failed: int,
)
    requires
        0 <= failed < paths.len(),
        replies.len() == failed + 1,
        forall|i: int| 0 <= i < failed ==> (#[trigger] replies[i]) is Ok,
        replies[failed] is Err,
    ensures
        follow(remove_each(paths), replies) == (
            paths.map_values(|path: Seq<char>| CallView::RemoveAll { path }).take(failed + 1),
            StepView::Return(Err(translated(replies[failed]->Err_0))),
        ),
    decreases failed,
{
    let calls = paths.map_values(|path: Seq<char>| CallView::RemoveAll { path });
    let rest = paths.skip(1);
    let later = replies.skip(1);
    if failed == 0 {
        assert(follow(StepView::Return(Err(translated(replies[0]->Err_0))), later).0
            =~= Seq::empty());
        assert(calls.take(1) =~= seq![calls[0]] + Seq::empty());
    } else {
        assert(replies[0] is Ok);
        assert forall|i: int| 0 <= i < failed - 1 implies (#[trigger] later[i]) is Ok by {
            assert(later[i] == replies[i + 1]);
        }
        lemma_remove_each_stops(rest, later, failed - 1);
        assert(calls.take(failed + 1) =~= seq![calls[0]] + rest.map_values(
            |path: Seq<char>| CallView::RemoveAll { path },
        ).take(failed));
    }
}

/// An operation on one blob that the backend fails on, at whatever call, tells
/// the error: that there is no such blob if the backend found nothing there, and
/// else the error of the backend itself.
pub proof fn failures_are_told(
    did: Seq<char>,
    key: Seq<char>,
    cid: Seq<char>,
    bytes: Seq<u8>,
    err: opendal::Error,
)
    ensures
        ({
            let told = StepView::Return(Err(translated(err)));
            let failed = seq![Err::<(), opendal::Error>(err)];
            &&& follow(put_temp_step(did, key, bytes), failed).1 == told
            &&& follow(put_permanent_step(did, cid, bytes), failed).1 == told
            &&& follow(quarantine_step(did, cid), failed).1 == told
            &&& follow(unquarantine_step(did, cid), failed).1 == told
            &&& follow(delete_step(did, cid), failed).1 == told
            &&& make_permanent_step(did, key, cid) matches StepView::Exists(_, after)
            &&& after.resumed(Err(err)) == told
            &&& follow(after.resumed(Ok(true)), failed).1 == told
            &&& follow(after.resumed(Ok(false)), failed).1 == told
            &&& has_temp_step(did, key) matches StepView::Exists(_, after)
            &&& after.resumed(Err(err)) == told
            &&& has_stored_step(did, cid) matches StepView::Exists(_, after)
            &&& after.resumed(Err(err)) == told
            &&& get_bytes_step(did, cid) is Read
            &&& after_read(Err(err)) == told
        }),
        translated(err) == if backend_not_found(err) {
            ErrorView::BlobNotFound
        } else {
            ErrorView::Backend(err)
        },
{
    reveal_with_fuel(follow, 2);
}

/// What lies on the backend, as the blobs of one actor. (`next_key` has no part
/// in it.)
pub open spec fn blobs_of(objects: Objects, did: Seq<char>) -> BlobState {
    BlobState {
        temp: Map::new(
            |key: Seq<char>| objects.contains_key(temp_at(did, key)),
            |key: Seq<char>| objects[temp_at(did, key)],
        ),
        stored: Map::new(
            |cid: Seq<char>| objects.contains_key(stored_at(did, cid)),
            |cid: Seq<char>| objects[stored_at(did, cid)],
        ),
        quarantined: Map::new(
            |cid: Seq<char>| objects.contains_key(quarantined_at(did, cid)),
            |cid: Seq<char>| objects[quarantined_at(did, cid)],
        ),
        next_key: 0,
    }
}

/// A store on a backend that can rename and a store in memory do the same to the blobs of an
/// actor, give the same answers, and succeed on the same terms. (The keys of
/// temporary blobs they make up differently.) The one exception is a temporary blob
/// that is not there and is to be made permanent under an identifier under which
/// a blob is stored: the store on a backend does nothing and succeeds, the store
/// in memory refuses.
pub proof fn stores_agree(
    did: Seq<char>,
    key: Seq<char>,
    cid: Seq<char>,
    bytes: Seq<u8>,
    cids: Seq<Seq<char>>,
    objects: Objects,
    missing: opendal::Error,
)
    requires
        backend_not_found(missing),
    ensures
        ({
            let blobs = blobs_of(objects, did);
            let (made, after_made) = run(make_permanent_step(did, key, cid), objects, missing);
            let (hidden, after_hidden) = run(quarantine_step(did, cid), objects, missing);
            let (shown, after_shown) = run(unquarantine_step(did, cid), objects, missing);
            let after_temp = run(put_temp_step(did, key, bytes), objects, missing).1;
            let after_put = run(put_permanent_step(did, cid, bytes), objects, missing).1;
            let after_delete = run(delete_step(did, cid), objects, missing).1;
            let after_delete_many = run(delete_many_step(did, cids), objects, missing).1;
            &&& blobs.temp.contains_key(key) || !blobs.stored.contains_key(cid) ==> {
                &&& made is Ok == blobs.make_permanent(key, cid).0 is Ok
                &&& blobs_of(after_made, did) == blobs.make_permanent(key, cid).1
            }
            &&& hidden is Ok == blobs.quarantine(cid).0 is Ok
            &&& blobs_of(after_hidden, did) == blobs.quarantine(cid).1
            &&& shown is Ok == blobs.unquarantine(cid).0 is Ok
            &&& blobs_of(after_shown, did) == blobs.unquarantine(cid).1
            &&& blobs_of(after_temp, did) == BlobState {
                temp: blobs.temp.insert(key, bytes),
                ..blobs
            }
            &&& blobs_of(after_put, did) == blobs.put_permanent(cid, bytes)
            &&& blobs_of(after_delete, did) == blobs.delete(cid)
            &&& blobs_of(after_delete_many, did) == blobs.delete_many(cids)
            &&& run(get_bytes_step(did, cid), objects, missing).0 == match blobs.get_bytes(cid) {
                Ok(content) => Ok::<OutcomeView, ErrorView>(OutcomeView::Content(content)),
                Err(_) => Err(ErrorView::BlobNotFound),
            }
            &&& run(has_temp_step(did, key), objects, missing).0 == Ok::<OutcomeView, ErrorView>(
                OutcomeView::Flag(blobs.temp.contains_key(key)),
            )
            &&& run(has_stored_step(did, cid), objects, missing).0 == Ok::<OutcomeView, ErrorView>(
                OutcomeView::Flag(blobs.stored.contains_key(cid)),
            )
        }),
{
    make_permanent_moves(did, key, cid, objects, missing);
    quarantine_moves(did, cid, objects, missing);
    unquarantine_moves(did, cid, objects, missing);
    put_permanent_writes(did, cid, bytes, objects, missing);
    delete_takes_away(did, cid, objects, missing);
    delete_many_takes_away(did, cids, objects, missing);
    get_bytes_reads(did, cid, objects, missing);
    put_temp_writes(did, key, bytes, objects, missing);
    questions_are_answered(did, key, objects, missing);
    questions_are_answered(did, cid, objects, missing);
    lemma_paths_are_apart(did);
    let blobs = blobs_of(objects, did);
    let after_made = run(make_permanent_step(did, key, cid), objects, missing).1;
    if blobs.temp.contains_key(key) || !blobs.stored.contains_key(cid) {
        assert(blobs_of(after_made, did) =~= blobs.make_permanent(key, cid).1);
    }
    let after_hidden = run(quarantine_step(did, cid), objects, missing).1;
    assert(blobs_of(after_hidden, did) =~= blobs.quarantine(cid).1);
    let after_shown = run(unquarantine_step(did, cid), objects, missing).1;
    assert(blobs_of(after_shown, did) =~= blobs.unquarantine(cid).1);
    let after_temp = run(put_temp_step(did, key, bytes), objects, missing).1;
    assert(blobs_of(after_temp, did) =~= BlobState {
        temp: blobs.temp.insert(key, bytes),
        ..blobs
    });
    let after_put = run(put_permanent_step(did, cid, bytes), objects, missing).1;
    assert(blobs_of(after_put, did) =~= blobs.put_permanent(cid, bytes));
    let after_delete = run(delete_step(did, cid), objects, missing).1;
    assert(blobs_of(after_delete, did) =~= blobs.delete(cid));
    let after_delete_many = run(delete_many_step(did, cids), objects, missing).1;
    assert forall|some: Seq<char>| #[trigger] cids.contains(some) <==> exists|i: int|
        0 <= i < cids.len() && stored_at(did, some) == stored_at(did, #[trigger] cids[i]) by {
        if cids.contains(some) {
            let i = choose|i: int| 0 <= i < cids.len() && cids[i] == some;
            assert(stored_at(did, some) == stored_at(did, cids[i]));
        }
    }
    assert(blobs_of(after_delete_many, did) =~= blobs.delete_many(cids));
}

proof fn lemma_paths_are_apart(did: Seq<char>)
    ensures
        forall|a: Seq<char>, b: Seq<char>|
            #[trigger] stored_at(did, a) == #[trigger] stored_at(did, b) ==> a == b,
        forall|a: Seq<char>, b: Seq<char>|
            #[trigger] temp_at(did, a) == #[trigger] temp_at(did, b) ==> a == b,
        forall|a: Seq<char>, b: Seq<char>|
            #[trigger] quarantined_at(did, a) == #[trigger] quarantined_at(did, b) ==> a == b,
        forall|a: Seq<char>, b: Seq<char>| #[trigger]
            stored_at(did, a) != #[trigger] temp_at(did, b),
        forall|a: Seq<char>, b: Seq<char>| #[trigger]
            stored_at(did, a) != #[trigger] quarantined_at(did, b),
        forall|a: Seq<char>, b: Seq<char>| #[trigger]
            temp_at(did, a) != #[trigger] quarantined_at(did, b),
{
    assert forall|a: Seq<char>, b: Seq<char>|
        #[trigger] stored_at(did, a) == #[trigger] stored_at(did, b) implies a == b by {
        if a != b {
            names_are_kept_apart(did, a, b);
        }
    }
    assert forall|a: Seq<char>, b: Seq<char>|
        #[trigger] temp_at(did, a) == #[trigger] temp_at(did, b) implies a == b by {
        if a != b {
            names_are_kept_apart(did, a, b);
        }
    }
    assert forall|a: Seq<char>, b: Seq<char>|
        #[trigger] quarantined_at(did, a) == #[trigger] quarantined_at(did, b) implies a == b by {
        if a != b {
            names_are_kept_apart(did, a, b);
        }
    }
    assert forall|a: Seq<char>, b: Seq<char>| #[trigger]
        stored_at(did, a) != #[trigger] temp_at(did, b) by {
        areas_are_disjoint(did, a, did, b);
    }
    assert forall|a: Seq<char>, b: Seq<char>| #[trigger]
        stored_at(did, a) != #[trigger] quarantined_at(did, b) by {
        areas_are_disjoint(did, a, did, b);
    }
    assert forall|a: Seq<char>, b: Seq<char>| #[trigger]
        temp_at(did, a) != #[trigger] quarantined_at(did, b) by {
        areas_are_disjoint(did, a, did, b);
    }
}

} // verus!
