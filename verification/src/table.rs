//! A table of byte buffers by name.

use crate::outside::bytes_view;
use crate::text::{position, text_before, text_order_is_strict, text_order_is_transitive, Position};
use bytes::Bytes;
use vstd::prelude::*;

verus! {

/// Byte buffers by name, no name twice, in the order of the names.
#[derive(Debug)]
pub struct BlobTable {
    entries: Vec<(String, Bytes)>,
}

/// Whether the names come in order, no name twice.
spec fn in_order(entries: Seq<(String, Bytes)>) -> bool {
    forall|i: int, j: int|
        0 <= i < j < entries.len() ==> text_before(#[trigger] entries[i].0@, #[trigger] entries[j].0@)
}

/// Whether a name is at a position.
spec fn at(entries: Seq<(String, Bytes)>, name: Seq<char>, i: int) -> bool {
    0 <= i < entries.len() && entries[i].0@ == name
}

/// The buffers by their names.
spec fn as_map(entries: Seq<(String, Bytes)>) -> Map<Seq<char>, Seq<u8>> {
    Map::new(
        |name: Seq<char>| exists|i: int| #[trigger] at(entries, name, i),
        |name: Seq<char>| bytes_view(entries[choose|i: int| #[trigger] at(entries, name, i)].1),
    )
}

/// What a name that stands at a position of a table is mapped to.
proof fn lemma_lookup(entries: Seq<(String, Bytes)>, i: int)
    requires
        in_order(entries),
        0 <= i < entries.len(),
    ensures
        as_map(entries).contains_key(entries[i].0@),
        as_map(entries)[entries[i].0@] == bytes_view(entries[i].1),
{
    let name = entries[i].0@;
    assert(at(entries, name, i));
    let j = choose|j: int| #[trigger] at(entries, name, j);
    assert(at(entries, name, j));
    text_order_is_strict(name, name);
    assert(i == j);
}

impl View for BlobTable {
    type V = Map<Seq<char>, Seq<u8>>;

    closed spec fn view(&self) -> Map<Seq<char>, Seq<u8>> {
        as_map(self.entries@)
    }
}

impl BlobTable {
    /// What every table keeps: its names come in order, no name twice.
    pub closed spec fn wf(&self) -> bool {
        in_order(self.entries@)
    }

    /// An empty table.
    pub fn new() -> (table: Self)
        ensures
            table.wf(),
            table@ == Map::<Seq<char>, Seq<u8>>::empty(),
    {
        let table = BlobTable { entries: Vec::new() };
        assert(table@ =~= Map::<Seq<char>, Seq<u8>>::empty());
        table
    }

    /// Finds the position of a name, or the one at which it would have to stand.
    fn find(&self, name: &str) -> (found: (bool, usize))
        requires
            self.wf(),
        ensures
            found.1 <= self.entries@.len(),
            found.0 ==> found.1 < self.entries@.len() && self.entries@[found.1 as int].0@ == name@,
            forall|i: int| 0 <= i < found.1 ==> text_before(#[trigger] self.entries@[i].0@, name@),
            !found.0 ==> forall|i: int|
                found.1 <= i < self.entries@.len() ==> text_before(
                    name@,
                    #[trigger] self.entries@[i].0@,
                ),
            found.0 == self@.contains_key(name@),
    {
        let mut low: usize = 0;
        let mut high: usize = self.entries.len();
        while low < high
            invariant
                self.wf(),
                low <= high <= self.entries@.len(),
                forall|i: int| 0 <= i < low ==> text_before(#[trigger] self.entries@[i].0@, name@),
                forall|i: int|
                    high <= i < self.entries@.len() ==> text_before(
                        name@,
                        #[trigger] self.entries@[i].0@,
                    ),
            decreases high - low,
        {
            let mid: usize = low + (high - low) / 2;
            match position(self.entries[mid].0.as_str(), name) {
                Position::Same => {
                    proof {
                        lemma_lookup(self.entries@, mid as int);
                    }
                    return (true, mid);
                },
                Position::Before => {
                    proof {
                        let ghost here = self.entries@[mid as int].0@;
                        assert forall|i: int| 0 <= i < mid + 1 implies text_before(
                            #[trigger] self.entries@[i].0@,
                            name@,
                        ) by {
                            if i < mid {
                                text_order_is_transitive(self.entries@[i].0@, here, name@);
                            }
                        }
                    }
                    low = mid + 1;
                },
                Position::After => {
                    proof {
                        let ghost here = self.entries@[mid as int].0@;
                        assert forall|i: int| mid <= i < self.entries@.len() implies text_before(
                            name@,
                            #[trigger] self.entries@[i].0@,
                        ) by {
                            if mid < i {
                                text_order_is_transitive(name@, here, self.entries@[i].0@);
                            }
                        }
                    }
                    high = mid;
                },
            }
        }
        proof {
            text_order_is_strict(name@, name@);
            if self@.contains_key(name@) {
                let i = choose|i: int| #[trigger] at(self.entries@, name@, i);
                assert(at(self.entries@, name@, i));
                assert(text_before(self.entries@[i].0@, name@) || text_before(
                    name@,
                    self.entries@[i].0@,
                ));
            }
        }
        (false, low)
    }

    /// Tells whether there is a buffer of that name.
    pub fn contains_key(&self, name: &str) -> (found: bool)
        requires
            self.wf(),
        ensures
            found == self@.contains_key(name@),
    {
        self.find(name).0
    }

    /// The buffer of that name.
    pub fn get(&self, name: &str) -> (buffer: Option<&Bytes>)
        requires
            self.wf(),
        ensures
            match buffer {
                Some(buffer) => self@.contains_key(name@) && bytes_view(*buffer) == self@[name@],
                None => !self@.contains_key(name@),
            },
    {
        let (found, i) = self.find(name);
        if found {
            proof {
                lemma_lookup(self.entries@, i as int);
            }
            Some(&self.entries[i].1)
        } else {
            None
        }
    }

    /// Puts a buffer under a name, in place of the one that is there.
    pub fn insert(&mut self, name: String, buffer: Bytes)
        requires
            old(self).wf(),
        ensures
            final(self).wf(),
            final(self)@ == old(self)@.insert(name@, bytes_view(buffer)),
    {
        let (found, i) = self.find(name.as_str());
        let ghost before = self.entries@;
        if found {
            let _ = self.entries.remove(i);
            proof {
                lemma_remove(before, i as int);
            }
        }
        let ghost without = self.entries@;
        self.entries.insert(i, (name, buffer));
        proof {
            if found {
                assert forall|k: int| i <= k < without.len() implies text_before(
                    name@,
                    #[trigger] without[k].0@,
                ) by {
                    assert(without[k] == before[k + 1]);
                    assert(text_before(before[i as int].0@, before[k + 1].0@));
                }
            }
            lemma_insert(without, i as int, name, buffer);
            assert(old(self)@.remove(name@).insert(name@, bytes_view(buffer)) =~= old(self)@.insert(
                name@,
                bytes_view(buffer),
            ));
        }
    }

    /// Takes out the buffer of that name.
    pub fn remove(&mut self, name: &str) -> (buffer: Option<Bytes>)
        requires
            old(self).wf(),
        ensures
            final(self).wf(),
            final(self)@ == old(self)@.remove(name@),
            match buffer {
                Some(buffer) => old(self)@.contains_key(name@) && bytes_view(buffer) == old(self)@[name@],
                None => !old(self)@.contains_key(name@),
            },
    {
        let (found, i) = self.find(name);
        if found {
            let ghost before = self.entries@;
            proof {
                lemma_lookup(before, i as int);
                lemma_remove(before, i as int);
            }
            let (_, buffer) = self.entries.remove(i);
            Some(buffer)
        } else {
            assert(self@.remove(name@) =~= self@);
            None
        }
    }

    /// The names, in order.
    pub fn keys(&self) -> (names: Vec<String>)
        requires
            self.wf(),
        ensures
            forall|name: Seq<char>|
                #[trigger] self@.contains_key(name) <==> exists|i: int|
                    0 <= i < names@.len() && #[trigger] names@[i]@ == name,
            forall|i: int, j: int|
                0 <= i < j < names@.len() ==> text_before(#[trigger] names@[i]@, #[trigger] names@[j]@),
    {
        let mut names: Vec<String> = Vec::new();
        let mut i: usize = 0;
        while i < self.entries.len()
            invariant
                i <= self.entries@.len(),
                names@.len() == i,
                forall|k: int| 0 <= k < i ==> (#[trigger] names@[k])@ == self.entries@[k].0@,
            decreases self.entries@.len() - i,
        {
            names.push(self.entries[i].0.clone());
            i += 1;
        }
        proof {
            assert forall|name: Seq<char>| #[trigger] self@.contains_key(name) <==> exists|i: int|
                0 <= i < names@.len() && #[trigger] names@[i]@ == name by {
                if self@.contains_key(name) {
                    let k = choose|k: int| #[trigger] at(self.entries@, name, k);
                    assert(at(self.entries@, name, k));
                    assert(names@[k]@ == name);
                }
                if exists|i: int| 0 <= i < names@.len() && #[trigger] names@[i]@ == name {
                    let k = choose|i: int| 0 <= i < names@.len() && #[trigger] names@[i]@ == name;
                    assert(at(self.entries@, name, k));
                }
            }
        }
        names
    }
}

/// What taking out an entry does to a table.
proof fn lemma_remove(entries: Seq<(String, Bytes)>, i: int)
    requires
        in_order(entries),
        0 <= i < entries.len(),
    ensures
        in_order(entries.remove(i)),
        as_map(entries.remove(i)) == as_map(entries).remove(entries[i].0@),
{
    let name = entries[i].0@;
    let left = entries.remove(i);
    assert forall|a: int, b: int| 0 <= a < b < left.len() implies text_before(
        #[trigger] left[a].0@,
        #[trigger] left[b].0@,
    ) by {
        let x = if a < i { a } else { a + 1 };
        let y = if b < i { b } else { b + 1 };
        assert(left[a] == entries[x]);
        assert(left[b] == entries[y]);
    }
    text_order_is_strict(name, name);
    assert forall|other: Seq<char>|
        #![trigger as_map(left).contains_key(other)]
        as_map(left).contains_key(other) <==> as_map(entries).contains_key(other) && other
            != name by {
        if as_map(left).contains_key(other) {
            let k = choose|k: int| #[trigger] at(left, other, k);
            assert(at(left, other, k));
            let x = if k < i { k } else { k + 1 };
            assert(left[k] == entries[x]);
            assert(at(entries, other, x));
        }
        if as_map(entries).contains_key(other) && other != name {
            let x = choose|x: int| #[trigger] at(entries, other, x);
            assert(at(entries, other, x));
            let k = if x < i { x } else { x - 1 };
            assert(left[k] == entries[x]);
            assert(at(left, other, k));
        }
    }
    assert forall|other: Seq<char>| as_map(left).contains_key(other) implies #[trigger] as_map(
        left,
    )[other] == as_map(entries)[other] by {
        let k = choose|k: int| #[trigger] at(left, other, k);
        assert(at(left, other, k));
        let x = if k < i { k } else { k + 1 };
        assert(left[k] == entries[x]);
        lemma_lookup(left, k);
        lemma_lookup(entries, x);
    }
    assert(as_map(left) =~= as_map(entries).remove(name));
}

/// What putting in an entry where it belongs does to a table.
proof fn lemma_insert(entries: Seq<(String, Bytes)>, i: int, name: String, buffer: Bytes)
    requires
        in_order(entries),
        0 <= i <= entries.len(),
        forall|k: int| 0 <= k < i ==> text_before(#[trigger] entries[k].0@, name@),
        forall|k: int| i <= k < entries.len() ==> text_before(name@, #[trigger] entries[k].0@),
    ensures
        in_order(entries.insert(i, (name, buffer))),
        as_map(entries.insert(i, (name, buffer))) == as_map(entries).insert(
            name@,
            bytes_view(buffer),
        ),
{
    let more = entries.insert(i, (name, buffer));
    assert forall|a: int, b: int| 0 <= a < b < more.len() implies text_before(
        #[trigger] more[a].0@,
        #[trigger] more[b].0@,
    ) by {
        let x = if a < i { a } else { a - 1 };
        let y = if b < i { b } else { b - 1 };
        assert(a != i ==> more[a] == entries[x]);
        assert(b != i ==> more[b] == entries[y]);
    }
    assert(more.remove(i) =~= entries);
    lemma_remove(more, i);
    lemma_lookup(more, i);
    assert(as_map(more) =~= as_map(entries).insert(name@, bytes_view(buffer)));
}

} // verus!
