//! The blob store interface, and a store that keeps its blobs in memory.

use crate::error::{BlobStoreError, ErrorView};
use crate::outside::{
    bytes_from_vec, bytes_to_vec, bytes_view, cid_text, cid_texts, cid_to_string,
};
use crate::state::{
    delete_many_deletes_each, make_permanent_stores, quarantine_moves, unquarantine_moves,
    BlobState,
};
use crate::table::BlobTable;
use crate::text::{decimal, text_before, to_decimal};
use bytes::Bytes;
use cid::Cid;
use vstd::prelude::*;
use vstd::string::*;

verus! {

/// Storage of the bytes of an actor's blobs.
///
/// A blob is put under a temporary key first, and made permanent under its
/// content identifier once it is wanted; a blob that is not to be seen is put in
/// quarantine, from where it can be brought back.
pub trait BlobStore: Sized {
    /// What [`BlobStore::get_stream`] gives out.
    type Stream;

    /// What the store keeps to.
    spec fn wf(&self) -> bool;

    /// Puts a temporary blob, and gives out its key.
    fn put_temp(&mut self, bytes: Vec<u8>) -> (key: Result<String, BlobStoreError>)
        requires
            old(self).wf(),
        ensures
            final(self).wf(),
    ;

    /// Makes a temporary blob permanent.
    fn make_permanent(&mut self, key: String, cid: Cid) -> (done: Result<(), BlobStoreError>)
        requires
            old(self).wf(),
        ensures
            final(self).wf(),
    ;

    /// Puts a permanent blob.
    fn put_permanent(&mut self, cid: Cid, bytes: Vec<u8>) -> (done: Result<(), BlobStoreError>)
        requires
            old(self).wf(),
        ensures
            final(self).wf(),
    ;

    /// Takes a stored blob out of sight.
    fn quarantine(&mut self, cid: Cid) -> (done: Result<(), BlobStoreError>)
        requires
            old(self).wf(),
        ensures
            final(self).wf(),
    ;

    /// Brings a blob back from quarantine.
    fn unquarantine(&mut self, cid: Cid) -> (done: Result<(), BlobStoreError>)
        requires
            old(self).wf(),
        ensures
            final(self).wf(),
    ;

    /// The bytes of a stored blob.
    fn get_bytes(&self, cid: Cid) -> (bytes: Result<Vec<u8>, BlobStoreError>)
        requires
            self.wf(),
    ;

    /// The bytes of a stored blob, as a stream.
    fn get_stream(&self, cid: Cid) -> (stream: Result<Self::Stream, BlobStoreError>)
        requires
            self.wf(),
    ;

    /// What the store may answer when it is asked for a temporary blob.
    spec fn temp_answer(&self, key: Seq<char>, found: Result<bool, BlobStoreError>) -> bool;

    /// Tells whether there is a temporary blob.
    fn has_temp(&self, key: String) -> (found: Result<bool, BlobStoreError>)
        requires
            self.wf(),
        ensures
            self.temp_answer(key@, found),
    ;

    /// Tells whether there is a stored blob.
    fn has_stored(&self, cid: Cid) -> (found: Result<bool, BlobStoreError>)
        requires
            self.wf(),
    ;

    /// Deletes a stored blob, if there is one.
    fn delete(&mut self, cid: Cid) -> (done: Result<(), BlobStoreError>)
        requires
            old(self).wf(),
        ensures
            final(self).wf(),
    ;

    /// Deletes stored blobs, as far as there are any.
    fn delete_many(&mut self, cids: Vec<Cid>) -> (done: Result<(), BlobStoreError>)
        requires
            old(self).wf(),
        ensures
            final(self).wf(),
    ;

    /// Deletes all blobs of the actor. A store that cannot do so at once does
    /// nothing and gives back `None`; its blobs are then deleted one by one.
    fn delete_all(&mut self) -> (done: Option<Result<(), BlobStoreError>>)
        requires
            old(self).wf(),
        ensures
            final(self).wf(),
        default_ensures
            done is None,
            *final(self) == *old(self),
    {
        None
    }
}

/// A blob store in memory.
#[derive(Debug)]
pub struct MemoryBlobStore {
    temp: BlobTable,
    stored: BlobTable,
    quarantined: BlobTable,
    next_key: u64,
}

impl View for MemoryBlobStore {
    type V = BlobState;

    closed spec fn view(&self) -> BlobState {
        BlobState {
            temp: self.temp@,
            stored: self.stored@,
            quarantined: self.quarantined@,
            next_key: self.next_key,
        }
    }
}

impl Default for MemoryBlobStore {
    /// A store without blobs.
    fn default() -> (store: Self)
        ensures
            store.wf(),
            store@ == BlobState::empty(),
            store@.temp == Map::<Seq<char>, Seq<u8>>::empty(),
            store@.stored == Map::<Seq<char>, Seq<u8>>::empty(),
            store@.quarantined == Map::<Seq<char>, Seq<u8>>::empty(),
            store@.next_key == 0,
    {
        MemoryBlobStore {
            temp: BlobTable::new(),
            stored: BlobTable::new(),
            quarantined: BlobTable::new(),
            next_key: 0,
        }
    }
}

/// The bytes of chunks, one after the other.
pub open spec fn joined(chunks: Seq<Bytes>) -> Seq<u8>
    decreases chunks.len(),
{
    if chunks.len() == 0 {
        Seq::empty()
    } else {
        joined(chunks.drop_last()) + bytes_view(chunks.last())
    }
}

/// The chunks together are the bytes of each, none left out and none moved.
pub proof fn joined_is_all_bytes(chunks: Seq<Bytes>)
    ensures
        joined(chunks) == chunks.map_values(|chunk: Bytes| bytes_view(chunk)).flatten(),
    decreases chunks.len(),
{
    let contents = chunks.map_values(|chunk: Bytes| bytes_view(chunk));
    contents.lemma_flatten_and_flatten_alt_are_equivalent();
    if chunks.len() > 0 {
        joined_is_all_bytes(chunks.drop_last());
        let fewer = chunks.drop_last().map_values(|chunk: Bytes| bytes_view(chunk));
        fewer.lemma_flatten_and_flatten_alt_are_equivalent();
        assert(contents.drop_last() =~= fewer);
    }
}

/// A store in memory that is asked for a temporary blob answers, and says that it
/// is there exactly if the store holds it.
pub proof fn has_temp_tells(
    store: MemoryBlobStore,
    key: Seq<char>,
    found: Result<bool, BlobStoreError>,
)
    ensures
        BlobStore::temp_answer(&store, key, found) <==> found is Ok && (found->Ok_0
            <==> store@.temp.contains_key(key)),
{
}

impl MemoryBlobStore {
    /// The identifiers of the stored blobs, in order.
    pub fn stored_cids(&self) -> (cids: Vec<String>)
        requires
            self.wf(),
        ensures
            forall|cid: Seq<char>|
                #[trigger] self@.stored.contains_key(cid) <==> exists|i: int|
                    0 <= i < cids@.len() && #[trigger] cids@[i]@ == cid,
            forall|i: int, j: int|
                0 <= i < j < cids@.len() ==> text_before(#[trigger] cids@[i]@, #[trigger] cids@[j]@),
    {
        self.stored.keys()
    }

    /// Tells whether there is a temporary blob of that key.
    pub fn has_temp(&self, key: &str) -> (found: bool)
        requires
            self.wf(),
        ensures
            found == self@.temp.contains_key(key@),
    {
        self.temp.contains_key(key)
    }

    /// Tells whether there is a blob of that identifier in quarantine.
    pub fn has_quarantined(&self, cid: &Cid) -> (found: bool)
        requires
            self.wf(),
        ensures
            found == self@.quarantined.contains_key(cid_text(*cid)),
    {
        self.quarantined.contains_key(cid_to_string(cid).as_str())
    }
}

impl BlobStore for MemoryBlobStore {
    type Stream = Vec<Bytes>;

    closed spec fn wf(&self) -> bool {
        &&& self.temp.wf()
        &&& self.stored.wf()
        &&& self.quarantined.wf()
    }

    /// A store in memory always answers, and by what it holds.
    open spec fn temp_answer(&self, key: Seq<char>, found: Result<bool, BlobStoreError>) -> bool {
        found == Ok::<bool, BlobStoreError>(self@.temp.contains_key(key))
    }

    /// Puts a temporary blob under the upcoming key.
    fn put_temp(&mut self, bytes: Vec<u8>) -> (key: Result<String, BlobStoreError>)
        ensures
            key matches Ok(key) && key@ == old(self)@.upcoming_key(),
            final(self)@ == old(self)@.put_temp(bytes@),
            key matches Ok(key) && {
                &&& key@ == "temp-"@ + decimal(old(self)@.next_key as nat)
                &&& final(self)@.temp == old(self)@.temp.insert(key@, bytes@)
            },
            final(self)@.stored == old(self)@.stored,
            final(self)@.quarantined == old(self)@.quarantined,
            final(self)@.next_key == (old(self)@.next_key + 1) % 0x1_0000_0000_0000_0000,
    {
        let key = "temp-".to_owned().concat(to_decimal(self.next_key).as_str());
        self.next_key = self.next_key.wrapping_add(1);
        self.temp.insert(key.clone(), bytes_from_vec(bytes));
        Ok(key)
    }

    /// Makes a temporary blob permanent, unless there is none; what is stored
    /// already stays.
    fn make_permanent(&mut self, key: String, cid: Cid) -> (done: Result<(), BlobStoreError>)
        ensures
            final(self)@ == old(self)@.make_permanent(key@, cid_text(cid)).1,
            match done {
                Ok(_) => old(self)@.make_permanent(key@, cid_text(cid)).0 is Ok,
                Err(err) => old(self)@.make_permanent(key@, cid_text(cid)).0
                    == Err::<(), ErrorView>(err@),
            },
            match done {
                Ok(_) => old(self)@.temp.contains_key(key@),
                Err(err) => !old(self)@.temp.contains_key(key@) && err
                    == BlobStoreError::TempNotFound(key),
            },
            final(self)@.temp == old(self)@.temp.remove(key@),
            final(self)@.stored == if done is Ok && !old(self)@.stored.contains_key(cid_text(cid)) {
                old(self)@.stored.insert(cid_text(cid), old(self)@.temp[key@])
            } else {
                old(self)@.stored
            },
            final(self)@.quarantined == old(self)@.quarantined,
            final(self)@.next_key == old(self)@.next_key,
    {
        proof {
            make_permanent_stores(old(self)@, key@, cid_text(cid));
        }
        match self.temp.remove(key.as_str()) {
            None => {
                assert(self@ =~= old(self)@);
                Err(BlobStoreError::TempNotFound(key))
            },
            Some(bytes) => {
                let cid = cid_to_string(&cid);
                if !self.stored.contains_key(cid.as_str()) {
                    self.stored.insert(cid, bytes);
                }
                Ok(())
            },
        }
    }

    /// Puts a permanent blob, in place of the one that is there.
    fn put_permanent(&mut self, cid: Cid, bytes: Vec<u8>) -> (done: Result<(), BlobStoreError>)
        ensures
            done is Ok,
            final(self)@ == old(self)@.put_permanent(cid_text(cid), bytes@),
            final(self)@.stored == old(self)@.stored.insert(cid_text(cid), bytes@),
            final(self)@.temp == old(self)@.temp,
            final(self)@.quarantined == old(self)@.quarantined,
            final(self)@.next_key == old(self)@.next_key,
    {
        self.stored.insert(cid_to_string(&cid), bytes_from_vec(bytes));
        Ok(())
    }

    /// Takes a stored blob out of sight, unless there is none.
    fn quarantine(&mut self, cid: Cid) -> (done: Result<(), BlobStoreError>)
        ensures
            final(self)@ == old(self)@.quarantine(cid_text(cid)).1,
            match done {
                Ok(_) => old(self)@.quarantine(cid_text(cid)).0 is Ok,
                Err(err) => old(self)@.quarantine(cid_text(cid)).0 == Err::<(), ErrorView>(err@),
            },
            match done {
                Ok(_) => old(self)@.stored.contains_key(cid_text(cid)),
                Err(err) => !old(self)@.stored.contains_key(cid_text(cid)) && (err matches
                    BlobStoreError::StoredNotFound(text) && text@ == cid_text(cid)),
            },
            final(self)@.stored == old(self)@.stored.remove(cid_text(cid)),
            final(self)@.quarantined == if done is Ok {
                old(self)@.quarantined.insert(cid_text(cid), old(self)@.stored[cid_text(cid)])
            } else {
                old(self)@.quarantined
            },
            final(self)@.temp == old(self)@.temp,
            final(self)@.next_key == old(self)@.next_key,
    {
        proof {
            quarantine_moves(old(self)@, cid_text(cid));
        }
        let cid = cid_to_string(&cid);
        match self.stored.remove(cid.as_str()) {
            None => {
                assert(self@ =~= old(self)@);
                Err(BlobStoreError::StoredNotFound(cid))
            },
            Some(bytes) => {
                self.quarantined.insert(cid, bytes);
                Ok(())
            },
        }
    }

    /// Brings a blob back from quarantine, unless there is none.
    fn unquarantine(&mut self, cid: Cid) -> (done: Result<(), BlobStoreError>)
        ensures
            final(self)@ == old(self)@.unquarantine(cid_text(cid)).1,
            match done {
                Ok(_) => old(self)@.unquarantine(cid_text(cid)).0 is Ok,
                Err(err) => old(self)@.unquarantine(cid_text(cid)).0 == Err::<(), ErrorView>(err@),
            },
            match done {
                Ok(_) => old(self)@.quarantined.contains_key(cid_text(cid)),
                Err(err) => !old(self)@.quarantined.contains_key(cid_text(cid)) && (err matches
                    BlobStoreError::QuarantinedNotFound(text) && text@ == cid_text(cid)),
            },
            final(self)@.quarantined == old(self)@.quarantined.remove(cid_text(cid)),
            final(self)@.stored == if done is Ok {
                old(self)@.stored.insert(cid_text(cid), old(self)@.quarantined[cid_text(cid)])
            } else {
                old(self)@.stored
            },
            final(self)@.temp == old(self)@.temp,
            final(self)@.next_key == old(self)@.next_key,
    {
        proof {
            unquarantine_moves(old(self)@, cid_text(cid));
        }
        let cid = cid_to_string(&cid);
        match self.quarantined.remove(cid.as_str()) {
            None => {
                assert(self@ =~= old(self)@);
                Err(BlobStoreError::QuarantinedNotFound(cid))
            },
            Some(bytes) => {
                self.stored.insert(cid, bytes);
                Ok(())
            },
        }
    }

    /// The bytes of a stored blob, unless there is none.
    fn get_bytes(&self, cid: Cid) -> (bytes: Result<Vec<u8>, BlobStoreError>)
        ensures
            match bytes {
                Ok(bytes) => self@.get_bytes(cid_text(cid)) == Ok::<Seq<u8>, ErrorView>(bytes@),
                Err(err) => self@.get_bytes(cid_text(cid)) == Err::<Seq<u8>, ErrorView>(err@),
            },
            match bytes {
                Ok(bytes) => self@.stored.contains_key(cid_text(cid)) && bytes@
                    == self@.stored[cid_text(cid)],
                Err(err) => !self@.stored.contains_key(cid_text(cid)) && (err matches
                    BlobStoreError::StoredNotFound(text) && text@ == cid_text(cid)),
            },
    {
        let cid = cid_to_string(&cid);
        match self.stored.get(cid.as_str()) {
            Some(bytes) => Ok(bytes_to_vec(bytes)),
            None => Err(BlobStoreError::StoredNotFound(cid)),
        }
    }

    /// The bytes of a stored blob in one chunk, unless there is none.
    fn get_stream(&self, cid: Cid) -> (stream: Result<Vec<Bytes>, BlobStoreError>)
        ensures
            match stream {
                Ok(chunks) => {
                    &&& chunks@.len() == 1
                    &&& self@.get_bytes(cid_text(cid)) == Ok::<Seq<u8>, ErrorView>(joined(chunks@))
                },
                Err(err) => self@.get_bytes(cid_text(cid)) == Err::<Seq<u8>, ErrorView>(err@),
            },
            match stream {
                Ok(chunks) => {
                    &&& self@.stored.contains_key(cid_text(cid))
                    &&& chunks@.len() == 1
                    &&& bytes_view(chunks@[0]) == self@.stored[cid_text(cid)]
                },
                Err(err) => !self@.stored.contains_key(cid_text(cid)) && (err matches
                    BlobStoreError::StoredNotFound(text) && text@ == cid_text(cid)),
            },
    {
        match BlobStore::get_bytes(self, cid) {
            Ok(bytes) => {
                let mut chunks: Vec<Bytes> = Vec::new();
                chunks.push(bytes_from_vec(bytes));
                proof {
                    reveal_with_fuel(joined, 2);
                    assert(joined(chunks@) =~= bytes@);
                }
                Ok(chunks)
            },
            Err(err) => Err(err),
        }
    }

    /// Tells whether there is a temporary blob of that key.
    fn has_temp(&self, key: String) -> (found: Result<bool, BlobStoreError>) {
        Ok(self.temp.contains_key(key.as_str()))
    }

    /// Tells whether there is a stored blob of that identifier.
    fn has_stored(&self, cid: Cid) -> (found: Result<bool, BlobStoreError>)
        ensures
            found == Ok::<bool, BlobStoreError>(self@.stored.contains_key(cid_text(cid))),
    {
        Ok(self.stored.contains_key(cid_to_string(&cid).as_str()))
    }

    /// Deletes a stored blob, if there is one.
    fn delete(&mut self, cid: Cid) -> (done: Result<(), BlobStoreError>)
        ensures
            done is Ok,
            final(self)@ == old(self)@.delete(cid_text(cid)),
            final(self)@.stored == old(self)@.stored.remove(cid_text(cid)),
            final(self)@.temp == old(self)@.temp,
            final(self)@.quarantined == old(self)@.quarantined,
            final(self)@.next_key == old(self)@.next_key,
    {
        let _ = self.stored.remove(cid_to_string(&cid).as_str());
        Ok(())
    }

    /// Deletes stored blobs, as far as there are any.
    fn delete_many(&mut self, cids: Vec<Cid>) -> (done: Result<(), BlobStoreError>)
        ensures
            done is Ok,
            final(self)@ == old(self)@.delete_many(cid_texts(cids@)),
            forall|text: Seq<char>| #[trigger]
                final(self)@.stored.contains_key(text) <==> old(self)@.stored.contains_key(text)
                    && forall|i: int| 0 <= i < cids@.len() ==> text != cid_text(#[trigger] cids@[i]),
            forall|text: Seq<char>| #[trigger]
                final(self)@.stored.contains_key(text) ==> final(self)@.stored[text]
                    == old(self)@.stored[text],
            final(self)@.temp == old(self)@.temp,
            final(self)@.quarantined == old(self)@.quarantined,
            final(self)@.next_key == old(self)@.next_key,
    {
        let ghost texts = cid_texts(cids@);
        let mut i: usize = 0;
        assert(self@ == old(self)@.delete_many(texts.take(0))) by {
            delete_many_deletes_each(old(self)@, Seq::empty(), Seq::empty());
            assert(texts.take(0) =~= Seq::empty());
        }
        while i < cids.len()
            invariant
                self.wf(),
                i <= cids@.len(),
                texts == cid_texts(cids@),
                self@ == old(self)@.delete_many(texts.take(i as int)),
            decreases cids@.len() - i,
        {
            let _ = self.stored.remove(cid_to_string(&cids[i]).as_str());
            proof {
                delete_many_deletes_each(old(self)@, texts.take(i as int), texts[i as int]);
                assert(texts.take(i + 1) =~= texts.take(i as int).push(texts[i as int]));
            }
            i += 1;
        }
        proof {
            assert(texts.take(cids@.len() as int) =~= texts);
            assert forall|text: Seq<char>| texts.contains(text) <==> exists|i: int|
                0 <= i < cids@.len() && text == cid_text(#[trigger] cids@[i]) by {
                if texts.contains(text) {
                    let i = choose|i: int| 0 <= i < texts.len() && texts[i] == text;
                    assert(text == cid_text(cids@[i]));
                }
                if exists|i: int| 0 <= i < cids@.len() && text == cid_text(#[trigger] cids@[i]) {
                    let i = choose|i: int|
                        0 <= i < cids@.len() && text == cid_text(#[trigger] cids@[i]);
                    assert(texts[i] == text);
                }
            }
        }
        Ok(())
    }
}

} // verus!
