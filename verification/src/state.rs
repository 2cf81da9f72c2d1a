//! What a blob store holds, what the operations do to it, and what follows.

use crate::error::ErrorView;
use crate::text::{decimal, decimal_is_injective};
use vstd::prelude::*;

verus! {

/// The blobs of a store by their keys and identifiers, and the number of the
/// next temporary blob.
#[verifier::ext_equal]
pub struct BlobState {
    pub temp: Map<Seq<char>, Seq<u8>>,
    pub stored: Map<Seq<char>, Seq<u8>>,
    pub quarantined: Map<Seq<char>, Seq<u8>>,
    pub next_key: u64,
}

/// The key of the temporary blob of number `n`.
pub open spec fn temp_key(n: u64) -> Seq<char> {
    "temp-"@ + decimal(n as nat)
}

/// The number after `n`, which is 0 after the last one.
pub open spec fn number_after(n: u64) -> u64 {
    if n == u64::MAX {
        0
    } else {
        (n + 1) as u64
    }
}

impl BlobState {
    /// A store without blobs.
    pub open spec fn empty() -> Self {
        BlobState {
            temp: Map::empty(),
            stored: Map::empty(),
            quarantined: Map::empty(),
            next_key: 0,
        }
    }

    /// The key that the next temporary blob gets.
    pub open spec fn upcoming_key(self) -> Seq<char> {
        temp_key(self.next_key)
    }

    /// After a temporary blob was put.
    pub open spec fn put_temp(self, bytes: Seq<u8>) -> Self {
        BlobState {
            temp: self.temp.insert(self.upcoming_key(), bytes),
            next_key: number_after(self.next_key),
            ..self
        }
    }

    /// After a try to make a temporary blob permanent: it is taken out, and
    /// becomes the stored blob unless there is one.
    pub open spec fn make_permanent(self, key: Seq<char>, cid: Seq<char>) -> (
        Result<(), ErrorView>,
        Self,
    ) {
        if !self.temp.contains_key(key) {
            (Err(ErrorView::TempNotFound(key)), self)
        } else if self.stored.contains_key(cid) {
            (Ok(()), BlobState { temp: self.temp.remove(key), ..self })
        } else {
            (
                Ok(()),
                BlobState {
                    temp: self.temp.remove(key),
                    stored: self.stored.insert(cid, self.temp[key]),
                    ..self
                },
            )
        }
    }

    /// After a stored blob was put, in place of the one that was there.
    pub open spec fn put_permanent(self, cid: Seq<char>, bytes: Seq<u8>) -> Self {
        BlobState { stored: self.stored.insert(cid, bytes), ..self }
    }

    /// After a try to take a stored blob out of sight.
    pub open spec fn quarantine(self, cid: Seq<char>) -> (Result<(), ErrorView>, Self) {
        if self.stored.contains_key(cid) {
            (
                Ok(()),
                BlobState {
                    stored: self.stored.remove(cid),
                    quarantined: self.quarantined.insert(cid, self.stored[cid]),
                    ..self
                },
            )
        } else {
            (Err(ErrorView::StoredNotFound(cid)), self)
        }
    }

    /// After a try to bring a quarantined blob back, in place of the one that is
    /// stored.
    pub open spec fn unquarantine(self, cid: Seq<char>) -> (Result<(), ErrorView>, Self) {
        if self.quarantined.contains_key(cid) {
            (
                Ok(()),
                BlobState {
                    quarantined: self.quarantined.remove(cid),
                    stored: self.stored.insert(cid, self.quarantined[cid]),
                    ..self
                },
            )
        } else {
            (Err(ErrorView::QuarantinedNotFound(cid)), self)
        }
    }

    /// The bytes of a stored blob.
    pub open spec fn get_bytes(self, cid: Seq<char>) -> Result<Seq<u8>, ErrorView> {
        if self.stored.contains_key(cid) {
            Ok(self.stored[cid])
        } else {
            Err(ErrorView::StoredNotFound(cid))
        }
    }

    /// After a stored blob was deleted, if there was one.
    pub open spec fn delete(self, cid: Seq<char>) -> Self {
        BlobState { stored: self.stored.remove(cid), ..self }
    }

    /// After stored blobs were deleted, as far as there were any.
    pub open spec fn delete_many(self, cids: Seq<Seq<char>>) -> Self {
        BlobState { stored: self.stored.remove_keys(cids.to_set()), ..self }
    }

    /// Whether every temporary blob has a key that was given out before the
    /// upcoming one.
    pub open spec fn keys_are_past(self) -> bool {
        forall|key: Seq<char>| #[trigger]
            self.temp.contains_key(key) ==> exists|n: u64|
                n < self.next_key && key == #[trigger] temp_key(n)
    }
}

/// A store without blobs has none of any sort, and counts from 0.
pub proof fn empty_holds_nothing(name: Seq<char>)
    ensures
        !BlobState::empty().temp.contains_key(name),
        !BlobState::empty().stored.contains_key(name),
        !BlobState::empty().quarantined.contains_key(name),
        BlobState::empty().next_key == 0,
{
}

/// A temporary blob is put under `temp-` and the number that it gets, the
/// numbers go up by one (and start again from 0 after the last one), and no
/// other blob changes.
pub proof fn put_temp_adds_one(state: BlobState, bytes: Seq<u8>)
    ensures
        state.upcoming_key() == "temp-"@ + decimal(state.next_key as nat),
        state.put_temp(bytes).temp == state.temp.insert(
            "temp-"@ + decimal(state.next_key as nat),
            bytes,
        ),
        state.put_temp(bytes).stored == state.stored,
        state.put_temp(bytes).quarantined == state.quarantined,
        state.put_temp(bytes).next_key == (state.next_key + 1) % 0x1_0000_0000_0000_0000,
{
}

/// A temporary blob that is made permanent is taken out, whatever its key, and
/// its bytes are stored under the identifier, unless something is stored there:
/// then that stays. Where there is no temporary blob it is refused. Nothing else
/// changes.
pub proof fn make_permanent_stores(state: BlobState, key: Seq<char>, cid: Seq<char>)
    ensures
        ({
            let (made, after) = state.make_permanent(key, cid);
            &&& made is Ok <==> state.temp.contains_key(key)
            &&& made is Err ==> made->Err_0 == ErrorView::TempNotFound(key)
            &&& after.temp == state.temp.remove(key)
            &&& state.temp.contains_key(key) && !state.stored.contains_key(cid) ==> after.stored
                == state.stored.insert(cid, state.temp[key])
            &&& !state.temp.contains_key(key) || state.stored.contains_key(cid) ==> after.stored
                == state.stored
            &&& after.quarantined == state.quarantined
            &&& after.next_key == state.next_key
        }),
{
    assert(!state.temp.contains_key(key) ==> state.temp.remove(key) =~= state.temp);
}

/// A blob that is put is stored under its identifier, whatever was there, and
/// nothing else changes.
pub proof fn put_permanent_stores(state: BlobState, cid: Seq<char>, bytes: Seq<u8>)
    ensures
        state.put_permanent(cid, bytes).stored == state.stored.insert(cid, bytes),
        state.put_permanent(cid, bytes).temp == state.temp,
        state.put_permanent(cid, bytes).quarantined == state.quarantined,
        state.put_permanent(cid, bytes).next_key == state.next_key,
{
}

/// Quarantine takes a blob out of what is stored and puts its bytes in quarantine
/// under the same identifier. Where nothing is stored it is refused. Nothing else
/// changes.
pub proof fn quarantine_moves(state: BlobState, cid: Seq<char>)
    ensures
        ({
            let (hidden, after) = state.quarantine(cid);
            &&& hidden is Ok <==> state.stored.contains_key(cid)
            &&& hidden is Err ==> hidden->Err_0 == ErrorView::StoredNotFound(cid)
            &&& after.stored == state.stored.remove(cid)
            &&& state.stored.contains_key(cid) ==> after.quarantined == state.quarantined.insert(
                cid,
                state.stored[cid],
            )
            &&& !state.stored.contains_key(cid) ==> after.quarantined == state.quarantined
            &&& after.temp == state.temp
            &&& after.next_key == state.next_key
        }),
{
    assert(!state.stored.contains_key(cid) ==> state.stored.remove(cid) =~= state.stored);
}

/// The end of quarantine takes a blob out of quarantine and stores its bytes under
/// the same identifier, whatever was there. Where there is nothing in quarantine
/// it is refused. Nothing else changes.
pub proof fn unquarantine_moves(state: BlobState, cid: Seq<char>)
    ensures
        ({
            let (shown, after) = state.unquarantine(cid);
            &&& shown is Ok <==> state.quarantined.contains_key(cid)
            &&& shown is Err ==> shown->Err_0 == ErrorView::QuarantinedNotFound(cid)
            &&& after.quarantined == state.quarantined.remove(cid)
            &&& state.quarantined.contains_key(cid) ==> after.stored == state.stored.insert(
                cid,
                state.quarantined[cid],
            )
            &&& !state.quarantined.contains_key(cid) ==> after.stored == state.stored
            &&& after.temp == state.temp
            &&& after.next_key == state.next_key
        }),
{
    assert(!state.quarantined.contains_key(cid) ==> state.quarantined.remove(cid)
        =~= state.quarantined);
}

/// A read succeeds exactly where a blob is stored, and gives its bytes.
pub proof fn get_bytes_reads(state: BlobState, cid: Seq<char>)
    ensures
        state.get_bytes(cid) is Ok <==> state.stored.contains_key(cid),
        state.stored.contains_key(cid) ==> state.get_bytes(cid)->Ok_0 == state.stored[cid],
        !state.stored.contains_key(cid) ==> state.get_bytes(cid)->Err_0
            == ErrorView::StoredNotFound(cid),
{
}

/// Deleting takes a stored blob away, and deleting many takes away those of the
/// identifiers given; nothing else changes.
pub proof fn delete_takes_away(state: BlobState, cid: Seq<char>, cids: Seq<Seq<char>>)
    ensures
        state.delete(cid).stored == state.stored.remove(cid),
        state.delete(cid).temp == state.temp,
        state.delete(cid).quarantined == state.quarantined,
        state.delete(cid).next_key == state.next_key,
        state.delete_many(cids).stored.contains_key(cid) <==> state.stored.contains_key(cid)
            && !cids.contains(cid),
        state.delete_many(cids).stored.contains_key(cid) ==> state.delete_many(cids).stored[cid]
            == state.stored[cid],
        state.delete_many(cids).temp == state.temp,
        state.delete_many(cids).quarantined == state.quarantined,
        state.delete_many(cids).next_key == state.next_key,
{
}

/// Temporary blobs of different numbers have different keys.
pub proof fn temp_keys_differ(m: u64, n: u64)
    requires
        m != n,
    ensures
        temp_key(m) != temp_key(n),
{
    if temp_key(m) == temp_key(n) {
        let start = "temp-"@.len() as int;
        assert(temp_key(m).skip(start) =~= decimal(m as nat));
        assert(temp_key(n).skip(start) =~= decimal(n as nat));
        decimal_is_injective(m as nat, n as nat);
    }
}

/// In a store without blobs, and after every operation on a store for which it
/// is so, the keys of the temporary blobs were given out before the upcoming
/// one. (Only after the last number, when they start again from 0, can it be
/// otherwise.)
pub proof fn keys_stay_past(
    state: BlobState,
    key: Seq<char>,
    cid: Seq<char>,
    bytes: Seq<u8>,
    cids: Seq<Seq<char>>,
)
    requires
        state.keys_are_past(),
    ensures
        BlobState::empty().keys_are_past(),
        state.next_key < u64::MAX ==> state.put_temp(bytes).keys_are_past(),
        state.make_permanent(key, cid).1.keys_are_past(),
        state.put_permanent(cid, bytes).keys_are_past(),
        state.quarantine(cid).1.keys_are_past(),
        state.unquarantine(cid).1.keys_are_past(),
        state.delete(cid).keys_are_past(),
        state.delete_many(cids).keys_are_past(),
{
    if state.next_key < u64::MAX {
        let after = state.put_temp(bytes);
        assert forall|some: Seq<char>| #[trigger] after.temp.contains_key(some) implies exists|n: u64|
            n < after.next_key && some == #[trigger] temp_key(n) by {
            if some == state.upcoming_key() {
                assert(some == temp_key(state.next_key));
            } else {
                assert(state.temp.contains_key(some));
            }
        }
    }
    let made = state.make_permanent(key, cid).1;
    assert forall|some: Seq<char>| #[trigger] made.temp.contains_key(some) implies exists|n: u64|
        n < made.next_key && some == #[trigger] temp_key(n) by {
        assert(state.temp.contains_key(some));
    }
}

/// As long as the numbers have not started again, a temporary blob gets a key
/// that no other has, and so takes the place of none.
pub proof fn put_temp_replaces_nothing(state: BlobState, bytes: Seq<u8>, key: Seq<char>)
    requires
        state.keys_are_past(),
    ensures
        !state.temp.contains_key(state.upcoming_key()),
        state.temp.contains_key(key) ==> {
            &&& state.put_temp(bytes).temp.contains_key(key)
            &&& state.put_temp(bytes).temp[key] == state.temp[key]
        },
{
    if state.temp.contains_key(state.upcoming_key()) {
        let n = choose|n: u64|
            n < state.next_key && state.upcoming_key() == #[trigger] temp_key(n);
        temp_keys_differ(n, state.next_key);
    }
}

/// From a temporary blob to a permanent one: once put, it is there and nothing
/// is stored that was not before; once made permanent, it is no longer
/// temporary and is stored; if nothing was stored there before, it is read back
/// as it was put; and a second try to make it permanent is refused and changes
/// nothing.
pub proof fn temp_to_permanent(state: BlobState, cid: Seq<char>, bytes: Seq<u8>)
    ensures
        ({
            let key = state.upcoming_key();
            let temporary = state.put_temp(bytes);
            let (made, permanent) = temporary.make_permanent(key, cid);
            &&& temporary.temp.contains_key(key)
            &&& temporary.stored == state.stored
            &&& made == Ok::<(), ErrorView>(())
            &&& !permanent.temp.contains_key(key)
            &&& permanent.stored.contains_key(cid)
            &&& !state.stored.contains_key(cid) ==> permanent.get_bytes(cid) == Ok::<
                Seq<u8>,
                ErrorView,
            >(bytes)
            &&& permanent.make_permanent(key, cid) == (
                Err::<(), ErrorView>(ErrorView::TempNotFound(key)),
                permanent,
            )
        }),
{
}

/// What is stored stays as it is when a temporary blob is made permanent under
/// its identifier; the temporary blob goes.
pub proof fn make_permanent_keeps_what_is_stored(state: BlobState, key: Seq<char>, cid: Seq<char>)
    requires
        state.temp.contains_key(key),
        state.stored.contains_key(cid),
    ensures
        state.make_permanent(key, cid) == (
            Ok::<(), ErrorView>(()),
            BlobState { temp: state.temp.remove(key), ..state },
        ),
{
}

/// A stored blob is read back as it was put.
pub proof fn get_bytes_after_put_permanent(state: BlobState, cid: Seq<char>, bytes: Seq<u8>)
    ensures
        state.put_permanent(cid, bytes).get_bytes(cid) == Ok::<Seq<u8>, ErrorView>(bytes),
{
}

/// A blob in quarantine is not stored and cannot be read, and nothing of that
/// identifier can be put in quarantine until something is stored again; brought
/// back it is what it was, and everything else too (but for what was in
/// quarantine under the identifier before, which is gone); and then there is
/// nothing to bring back.
pub proof fn quarantine_and_back(state: BlobState, cid: Seq<char>)
    requires
        state.stored.contains_key(cid),
    ensures
        ({
            let (hidden, away) = state.quarantine(cid);
            let (shown, back) = away.unquarantine(cid);
            &&& hidden == Ok::<(), ErrorView>(())
            &&& away.quarantined.contains_key(cid)
            &&& !away.stored.contains_key(cid)
            &&& away.get_bytes(cid) == Err::<Seq<u8>, ErrorView>(ErrorView::StoredNotFound(cid))
            &&& away.quarantine(cid) == (
                Err::<(), ErrorView>(ErrorView::StoredNotFound(cid)),
                away,
            )
            &&& shown == Ok::<(), ErrorView>(())
            &&& back == BlobState { quarantined: state.quarantined.remove(cid), ..state }
            &&& back.unquarantine(cid) == (
                Err::<(), ErrorView>(ErrorView::QuarantinedNotFound(cid)),
                back,
            )
        }),
{
    let back = state.quarantine(cid).1.unquarantine(cid).1;
    assert(back.stored =~= state.stored);
    assert(back.quarantined =~= state.quarantined.remove(cid));
}

/// Deleting a blob a second time changes nothing.
pub proof fn delete_is_idempotent(state: BlobState, cid: Seq<char>)
    ensures
        !state.delete(cid).stored.contains_key(cid),
        state.delete(cid).delete(cid) == state.delete(cid),
{
    assert(state.delete(cid).delete(cid).stored =~= state.delete(cid).stored);
}

/// Deleting many is deleting each: the first, and then the rest.
pub proof fn delete_many_deletes_each(state: BlobState, cids: Seq<Seq<char>>, cid: Seq<char>)
    ensures
        state.delete_many(Seq::empty()) == state,
        state.delete_many(seq![cid] + cids) == state.delete(cid).delete_many(cids),
        state.delete_many(cids.push(cid)) == state.delete_many(cids).delete(cid),
{
    let none: Seq<Seq<char>> = Seq::empty();
    assert(state.stored.remove_keys(none.to_set()) =~= state.stored);
    assert((seq![cid] + cids).to_set() =~= cids.to_set().insert(cid)) by {
        lemma_first_of(cids, cid);
    }
    assert(state.delete_many(seq![cid] + cids).stored =~= state.delete(cid).delete_many(
        cids,
    ).stored);
    assert(cids.push(cid).to_set() =~= cids.to_set().insert(cid)) by {
        lemma_last_of(cids, cid);
    }
    assert(state.delete_many(cids.push(cid)).stored =~= state.delete_many(cids).delete(
        cid,
    ).stored);
}

proof fn lemma_first_of(cids: Seq<Seq<char>>, cid: Seq<char>)
    ensures
        forall|some: Seq<char>|
            #![trigger (seq![cid] + cids).contains(some)]
            (seq![cid] + cids).contains(some) <==> some == cid || cids.contains(some),
{
    let all = seq![cid] + cids;
    assert forall|some: Seq<char>|
        #![trigger all.contains(some)]
        all.contains(some) <==> some == cid || cids.contains(some) by {
        if all.contains(some) {
            let i = choose|i: int| 0 <= i < all.len() && all[i] == some;
            if i > 0 {
                assert(cids[i - 1] == some);
            }
        }
        if cids.contains(some) {
            let i = choose|i: int| 0 <= i < cids.len() && cids[i] == some;
            assert(all[i + 1] == some);
        }
        assert(all[0] == cid);
    }
}

proof fn lemma_last_of(cids: Seq<Seq<char>>, cid: Seq<char>)
    ensures
        forall|some: Seq<char>|
            #![trigger cids.push(cid).contains(some)]
            cids.push(cid).contains(some) <==> some == cid || cids.contains(some),
{
    let all = cids.push(cid);
    assert forall|some: Seq<char>|
        #![trigger all.contains(some)]
        all.contains(some) <==> some == cid || cids.contains(some) by {
        if all.contains(some) {
            let i = choose|i: int| 0 <= i < all.len() && all[i] == some;
            if i < cids.len() {
                assert(cids[i] == some);
            }
        }
        if cids.contains(some) {
            let i = choose|i: int| 0 <= i < cids.len() && cids[i] == some;
            assert(all[i] == some);
        }
        assert(all[cids.len() as int] == cid);
    }
}

/// Whether the same blob, or none, is under a name before and after.
pub open spec fn same_blob(
    after: Map<Seq<char>, Seq<u8>>,
    before: Map<Seq<char>, Seq<u8>>,
    name: Seq<char>,
) -> bool {
    &&& after.contains_key(name) == before.contains_key(name)
    &&& before.contains_key(name) ==> after[name] == before[name]
}

/// Whether nothing under an identifier changed, stored or in quarantine.
pub open spec fn same_under(after: BlobState, before: BlobState, cid: Seq<char>) -> bool {
    &&& same_blob(after.stored, before.stored, cid)
    &&& same_blob(after.quarantined, before.quarantined, cid)
}

/// An operation on a blob leaves the blobs of other identifiers and keys as
/// they are.
pub proof fn other_blobs_are_left_alone(
    state: BlobState,
    key: Seq<char>,
    cid: Seq<char>,
    bytes: Seq<u8>,
    other_key: Seq<char>,
    other_cid: Seq<char>,
)
    requires
        other_key != key,
        other_cid != cid,
    ensures
        same_under(state.make_permanent(key, cid).1, state, other_cid),
        same_blob(state.make_permanent(key, cid).1.temp, state.temp, other_key),
        same_under(state.put_permanent(cid, bytes), state, other_cid),
        state.put_permanent(cid, bytes).temp == state.temp,
        same_under(state.quarantine(cid).1, state, other_cid),
        state.quarantine(cid).1.temp == state.temp,
        same_under(state.unquarantine(cid).1, state, other_cid),
        state.unquarantine(cid).1.temp == state.temp,
        same_under(state.delete(cid), state, other_cid),
        state.delete(cid).temp == state.temp,
        state.delete(cid).quarantined == state.quarantined,
{
}

/// An operation that is refused changes nothing.
pub proof fn refused_operations_change_nothing(state: BlobState, key: Seq<char>, cid: Seq<char>)
    ensures
        state.make_permanent(key, cid).0 is Err ==> state.make_permanent(key, cid).1 == state,
        state.quarantine(cid).0 is Err ==> state.quarantine(cid).1 == state,
        state.unquarantine(cid).0 is Err ==> state.unquarantine(cid).1 == state,
{
}

} // verus!
