//! A single-column index: references to encoded values, kept in the order
//! of the values.

use skiplist::OrderedSkipList;
use std::cmp::Ordering;
use std::sync::Arc;
use vstd::prelude::*;
use crate::data_type::DataType;
use crate::error::Error;
use crate::protocol::cursor::Cursor;
use crate::protocol::layout::unpacked_int;
use crate::storage::data_reference::order_of;
use crate::storage::{DataReference, MemoryPage};

verus! {

/// The skip list of the `skiplist` crate. Nothing inside it is visible
/// here: what it holds is named by `entries_of`.
#[verifier::external_type_specification]
#[verifier::external_body]
#[verifier::reject_recursive_types(T)]
pub struct ExOrderedSkipList<T>(OrderedSkipList<T>);

/// The entries that a skip list holds, from its front to its back.
pub uninterp spec fn entries_of(list: OrderedSkipList<(i32, usize)>) -> Seq<(i32, usize)>;

/// The order of entries: by the first component, then by the second. It is
/// the order that the standard library gives to pairs of integers.
pub open spec fn entry_less(a: (i32, usize), b: (i32, usize)) -> bool {
    a.0 < b.0 || (a.0 == b.0 && a.1 < b.1)
}

/// Whether `after` is `before` with `entry` put in at index `at`, behind
/// every entry that is less than it and in front of every other.
pub open spec fn inserted_at(
    before: Seq<(i32, usize)>,
    entry: (i32, usize),
    at: int,
    after: Seq<(i32, usize)>,
) -> bool {
    &&& 0 <= at <= before.len()
    &&& after == before.insert(at, entry)
    &&& forall|j: int| 0 <= j < at ==> entry_less(#[trigger] before[j], entry)
    &&& forall|j: int| at <= j < before.len() ==> !entry_less(#[trigger] before[j], entry)
}

/// `OrderedSkipList::new`: a list without entries, ordered by the
/// `partial_cmp` of its entries.
#[verifier::external_body]
fn skiplist_new() -> (list: OrderedSkipList<(i32, usize)>)
    ensures
        entries_of(list) == Seq::<(i32, usize)>::empty(),
{
    OrderedSkipList::new()
}

/// `OrderedSkipList::insert`: the list, which the crate keeps in order at all
/// times, walks past the entries that are less than the new one and links
/// the new one in where it stops. So the new entry comes to stand behind
/// every entry that is less than it and in front of every other one, those
/// equal to it too. No entry leaves or moves.
#[verifier::external_body]
fn skiplist_insert(list: &mut OrderedSkipList<(i32, usize)>, entry: (i32, usize))
    ensures
        exists|at: int| inserted_at(entries_of(*old(list)), entry, at, entries_of(*final(list))),
{
    list.insert(entry)
}

/// `OrderedSkipList::len`: the number of entries.
#[verifier::external_body]
fn skiplist_len(list: &OrderedSkipList<(i32, usize)>) -> (len: usize)
    ensures
        len == entries_of(*list).len(),
{
    list.len()
}

/// `OrderedSkipList::get`: the entry at the given distance from the front,
/// or nothing where the list is not that long.
#[verifier::external_body]
fn skiplist_get(list: &OrderedSkipList<(i32, usize)>, rank: usize) -> (entry: Option<
    (i32, usize),
>)
    ensures
        rank < entries_of(*list).len() ==> entry == Some(entries_of(*list)[rank as int]),
        rank >= entries_of(*list).len() ==> entry is None,
{
    list.get(rank).copied()
}

/// Index.
/// Stores references to the data of one column in a sorted order.
///
/// Each reference is kept once, in `refs`. The skip list orders them: an
/// entry is the value that a reference decodes to, and the reference's slot
/// in `refs`.
pub struct Index {
    data_type: DataType,
    refs: Vec<DataReference>,
    index: OrderedSkipList<(i32, usize)>,
}

impl View for Index {
    type V = Seq<Cursor>;

    /// The places that the index refers to, each a page and an offset in
    /// it, in the order of the index.
    closed spec fn view(&self) -> Seq<Cursor> {
        Seq::new(self.references().len(), |rank: int| self.references()[rank].cursor())
    }
}

/// The value that the INTEGER at `place` decodes to.
pub open spec fn value_at(place: Cursor) -> i32 {
    unpacked_int(place.remaining())->Ok_0
}

/// Whether `after` is `before` with `place` put in at rank `at`, behind the
/// places whose value is not greater than its own and in front of those
/// whose value is.
pub open spec fn placed_at(before: Seq<Cursor>, place: Cursor, at: int, after: Seq<Cursor>) -> bool {
    &&& 0 <= at <= before.len()
    &&& after == before.insert(at, place)
    &&& forall|j: int| 0 <= j < at ==> value_at(#[trigger] before[j]) <= value_at(place)
    &&& forall|j: int| at <= j < before.len() ==> value_at(#[trigger] before[j]) > value_at(place)
}

/// Whether `after` is `before` with `place` put in where its value belongs,
/// behind the places of equal value.
pub open spec fn placed_in_order(before: Seq<Cursor>, place: Cursor, after: Seq<Cursor>) -> bool {
    exists|at: int| placed_at(before, place, at, after)
}

impl Index {
    /// The type of the indexed column.
    pub closed spec fn data_type(&self) -> DataType {
        self.data_type
    }

    /// The references that the index holds, in the order of the index.
    pub closed spec fn references(&self) -> Seq<DataReference> {
        Seq::new(
            entries_of(self.index).len(),
            |rank: int| self.refs@[entries_of(self.index)[rank].1 as int],
        )
    }

    /// The invariant of the index: the skip list's entries are in order,
    /// each names a slot of its own, and its first component is the value
    /// that the reference in that slot decodes to.
    pub closed spec fn wf(&self) -> bool {
        let entries = entries_of(self.index);
        &&& entries.len() == self.refs@.len()
        &&& forall|i: int, j: int|
            0 <= i < j < entries.len() ==> !entry_less(#[trigger] entries[j], #[trigger] entries[i])
        &&& forall|i: int, j: int|
            0 <= i < j < entries.len() ==> (#[trigger] entries[i]).1 != (#[trigger] entries[j]).1
        &&& forall|i: int|
            0 <= i < entries.len() ==> {
                &&& (#[trigger] entries[i]).1 < self.refs@.len()
                &&& self.refs@[entries[i].1 as int].data_type() == self.data_type
                &&& self.refs@[entries[i].1 as int].int_field() == Ok::<i32, Error>(entries[i].0)
            }
    }

    /// Create new index instance.
    pub fn new(data_type: DataType) -> (index: Self)
        ensures
            index.wf(),
            index.data_type() == data_type,
            index@ == Seq::<Cursor>::empty(),
    {
        let index = Index { data_type: data_type, refs: Vec::new(), index: skiplist_new() };
        assert(index@ =~= Seq::<Cursor>::empty());
        index
    }

    /// Add new value to index: the INTEGER at offset `pos` of `page`.
    ///
    /// The reference comes to stand behind those whose value is not greater
    /// and in front of those whose value is. An index of another type than
    /// INTEGER has no comparator and refuses with `Error::Unsupported`; a
    /// place where no INTEGER can be read is refused with the error of
    /// reading it. A refusal leaves the index as it was.
    pub fn add(&mut self, page: Arc<MemoryPage>, pos: usize) -> (res: Result<(), Error>)
        requires
            old(self).wf(),
        ensures
            final(self).wf(),
            final(self).data_type() == old(self).data_type(),
            old(self).data_type() != DataType::INTEGER ==> res == Err::<(), Error>(
                Error::Unsupported,
            ),
            old(self).data_type() == DataType::INTEGER ==> match unpacked_int(
                (Cursor { page: page@, position: pos as nat }).remaining(),
            ) {
                Ok(_) => res is Ok,
                Err(e) => res == Err::<(), Error>(e),
            },
            res is Err ==> final(self)@ == old(self)@,
            res is Ok ==> placed_in_order(
                old(self)@,
                (Cursor { page: page@, position: pos as nat }),
                final(self)@,
            ),
    {
        if self.data_type != DataType::INTEGER {
            return Err(Error::Unsupported);
        }
        let dref = DataReference::new(page, pos, self.data_type);
        let key = dref.to_int()?;
        let slot = self.refs.len();
        self.refs.push(dref);
        skiplist_insert(&mut self.index, (key, slot));
        proof {
            let before = entries_of(old(self).index);
            let after = entries_of(self.index);
            let at = choose|at: int| inserted_at(before, (key, slot), at, after);
            assert forall|i: int| 0 <= i < after.len() implies {
                &&& (#[trigger] after[i]).1 < self.refs@.len()
                &&& self.refs@[after[i].1 as int].data_type() == self.data_type
                &&& self.refs@[after[i].1 as int].int_field() == Ok::<i32, Error>(after[i].0)
            } by {
                if i < at {
                    assert(after[i] == before[i]);
                } else if i > at {
                    assert(after[i] == before[i - 1]);
                }
            }
            assert forall|i: int, j: int| 0 <= i < j < after.len() implies !entry_less(
                #[trigger] after[j],
                #[trigger] after[i],
            ) && after[i].1 != after[j].1 by {
                let bi = if i < at { i } else { i - 1 };
                let bj = if j < at { j } else { j - 1 };
                if i != at {
                    assert(after[i] == before[bi]);
                }
                if j != at {
                    assert(after[j] == before[bj]);
                }
            }
            let place = Cursor { page: page@, position: pos as nat };
            assert(self@ =~= old(self)@.insert(at, place)) by {
                assert forall|rank: int| 0 <= rank < after.len() implies self@[rank] == old(
                    self,
                )@.insert(at, place)[rank] by {
                    if rank < at {
                        assert(after[rank] == before[rank]);
                    } else if rank > at {
                        assert(after[rank] == before[rank - 1]);
                    }
                }
            }
            assert forall|j: int| 0 <= j < at implies value_at(#[trigger] old(self)@[j])
                <= value_at(place) by {
                assert(entry_less(before[j], (key, slot)));
            }
            assert forall|j: int| at <= j < old(self)@.len() implies value_at(
                #[trigger] old(self)@[j],
            ) > value_at(place) by {
                assert(!entry_less(before[j], (key, slot)));
            }
            assert(placed_at(old(self)@, place, at, self@));
        }
        Ok(())
    }

    /// The number of references in the index.
    pub fn len(&self) -> (len: usize)
        ensures
            len == self@.len(),
    {
        skiplist_len(&self.index)
    }

    /// The reference at the given rank of the index's order, counted from
    /// 0, or nothing where the index holds no more than `rank` references.
    pub fn get(&self, rank: usize) -> (dref: Option<&DataReference>)
        requires
            self.wf(),
        ensures
            rank < self@.len() ==> dref == Some(&self.references()[rank as int]),
            rank >= self@.len() ==> dref is None,
    {
        match skiplist_get(&self.index, rank) {
            Some(entry) => Some(&self.refs[entry.1]),
            None => None,
        }
    }
}

/// An index holds references of its own type, each to the place that the
/// view gives at the same rank, and each to a value that can be decoded.
pub proof fn lemma_index_references(index: Index, i: int)
    requires
        index.wf(),
        0 <= i < index@.len(),
    ensures
        index.references().len() == index@.len(),
        index.references()[i].cursor() == index@[i],
        index.references()[i].data_type() == index.data_type(),
        index.data_type() == DataType::INTEGER,
        index.references()[i].int_field() == Ok::<i32, Error>(value_at(index@[i])),
{
    let entries = entries_of(index.index);
    assert(index.refs@[entries[i].1 as int].int_field() == Ok::<i32, Error>(entries[i].0));
}

/// In the order of an index the decoded values never decrease: of two
/// references, the one that comes first holds the value that is less, or
/// the two hold equal values, and comparing them says so.
pub proof fn lemma_index_sorted(index: Index, i: int, j: int)
    requires
        index.wf(),
        0 <= i <= j < index@.len(),
    ensures
        unpacked_int(index@[i].remaining()) is Ok,
        unpacked_int(index@[j].remaining()) is Ok,
        value_at(index@[i]) <= value_at(index@[j]),
        index.references()[i].compared(&index.references()[j], false) == Ok::<Ordering, Error>(
            order_of(value_at(index@[i]), value_at(index@[j])),
        ),
        index.references()[i].compared(&index.references()[j], false) != Ok::<Ordering, Error>(
            Ordering::Greater,
        ),
{
    let entries = entries_of(index.index);
    lemma_index_references(index, i);
    lemma_index_references(index, j);
    if i < j {
        assert(!entry_less(entries[j], entries[i]));
    }
}

} // verus!
