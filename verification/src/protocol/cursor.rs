//! The state of a stream, as a mathematical value: the bytes of the page
//! and the position in them. The streams' contracts are stated over it.

use vstd::prelude::*;
use crate::error::Error;
use crate::protocol::layout::{fits_prefix, insufficient, packed, varbinary_bytes};

verus! {

/// A page's bytes and a position in them. The position may lie beyond the
/// page's end: nothing can then be written or read.
pub struct Cursor {
    pub page: Seq<u8>,
    pub position: nat,
}

impl Cursor {
    /// The bytes from the position to the page's end.
    pub open spec fn remaining(self) -> Seq<u8> {
        if self.position <= self.page.len() {
            self.page.skip(self.position as int)
        } else {
            Seq::empty()
        }
    }

    /// The number of bytes from the position to the page's end.
    pub open spec fn available(self) -> nat {
        if self.position <= self.page.len() {
            (self.page.len() - self.position) as nat
        } else {
            0
        }
    }

    /// Whether `required` bytes lie between the position and the page's end.
    pub open spec fn fits(self, required: nat) -> bool {
        self.position + required <= self.page.len()
    }

    /// What checking for `required` bytes returns.
    pub open spec fn space_for(self, required: nat) -> Result<(), Error> {
        if self.fits(required) {
            Ok(())
        } else {
            Err(insufficient(required as int, self.available() as int))
        }
    }

    /// The state after an attempt to write a field with encoding `bytes`:
    /// if it fits, it replaces the bytes at the position, and the position
    /// moves behind it; if it does not, nothing changes.
    pub open spec fn put(self, bytes: Seq<u8>) -> Cursor {
        if self.fits(bytes.len()) {
            Cursor {
                page: self.page.take(self.position as int) + bytes + self.page.skip(
                    (self.position + bytes.len()) as int,
                ),
                position: self.position + bytes.len(),
            }
        } else {
            self
        }
    }

    /// What an attempt to write a VARBINARY with the given payload returns:
    /// the error for a page with too little room, or, where there is room,
    /// the error for a payload that is too long for the length prefix.
    pub open spec fn put_array_result(self, payload: Seq<u8>) -> Result<(), Error> {
        if !self.fits(4 + payload.len()) {
            self.space_for(4 + payload.len())
        } else if !fits_prefix(payload.len()) {
            Err(Error::InvalidEncoding)
        } else {
            Ok(())
        }
    }

    /// The state after an attempt to write a VARBINARY with the given
    /// payload: that after writing its encoding if the attempt succeeds,
    /// else the same.
    pub open spec fn put_array(self, payload: Seq<u8>) -> Cursor {
        if self.put_array_result(payload) is Ok {
            self.put(varbinary_bytes(payload))
        } else {
            self
        }
    }

    /// The state after attempts to write, one after the other, the fields
    /// whose encodings are given. An attempt that fails does not stop the
    /// ones that follow.
    pub open spec fn put_all(self, fields: Seq<Seq<u8>>) -> Cursor
        decreases fields.len(),
    {
        if fields.len() == 0 {
            self
        } else {
            self.put_all(fields.drop_last()).put(fields.last())
        }
    }

    /// The state after `consumed` bytes were read.
    pub open spec fn advance(self, consumed: nat) -> Cursor {
        Cursor { page: self.page, position: self.position + consumed }
    }
}

/// Writing through a stream is packing into the bytes that remain: the
/// page after `put` is the bytes before the position, followed by the
/// remaining bytes after packing.
pub proof fn lemma_put_packs_remaining(cursor: Cursor, bytes: Seq<u8>)
    requires
        cursor.position <= cursor.page.len(),
    ensures
        cursor.put(bytes).page == cursor.page.take(cursor.position as int) + packed(
            cursor.remaining(),
            bytes,
        ),
        cursor.remaining().len() == cursor.available(),
{
    let head = cursor.page.take(cursor.position as int);
    let rest = cursor.remaining();
    assert(cursor.page =~= head + rest);
    if cursor.fits(bytes.len()) {
        assert(rest.skip(bytes.len() as int) =~= cursor.page.skip(
            (cursor.position + bytes.len()) as int,
        ));
        assert(head + (bytes + rest.skip(bytes.len() as int)) =~= head + bytes + rest.skip(
            bytes.len() as int,
        ));
    }
}

/// The number of bytes that the given encodings take together.
pub open spec fn total_len(fields: Seq<Seq<u8>>) -> nat
    decreases fields.len(),
{
    if fields.len() == 0 {
        0
    } else {
        total_len(fields.drop_last()) + fields.last().len()
    }
}

/// The given encodings, one after the other.
pub open spec fn concat(fields: Seq<Seq<u8>>) -> Seq<u8>
    decreases fields.len(),
{
    if fields.len() == 0 {
        Seq::empty()
    } else {
        concat(fields.drop_last()) + fields.last()
    }
}

/// A write never makes the page longer or shorter, never moves the position
/// back, and never touches a byte in front of the position.
pub proof fn lemma_put_keeps_front(cursor: Cursor, bytes: Seq<u8>)
    ensures
        cursor.put(bytes).page.len() == cursor.page.len(),
        cursor.put(bytes).position >= cursor.position,
        forall|i: int|
            0 <= i < cursor.position && i < cursor.page.len() ==> cursor.put(bytes).page[i]
                == cursor.page[i],
        !cursor.fits(bytes.len()) ==> cursor.put(bytes) == cursor,
{
}

/// The same of a sequence of writes.
pub proof fn lemma_put_all_keeps_front(cursor: Cursor, fields: Seq<Seq<u8>>)
    ensures
        cursor.put_all(fields).page.len() == cursor.page.len(),
        cursor.put_all(fields).position >= cursor.position,
        forall|i: int|
            0 <= i < cursor.position && i < cursor.page.len() ==> cursor.put_all(fields).page[i]
                == cursor.page[i],
    decreases fields.len(),
{
    if fields.len() > 0 {
        lemma_put_all_keeps_front(cursor, fields.drop_last());
        lemma_put_keeps_front(cursor.put_all(fields.drop_last()), fields.last());
    }
}

/// Writing the first `count + more` fields is writing the first `count`
/// and going on from there with the next `more`.
proof fn lemma_put_all_split(cursor: Cursor, fields: Seq<Seq<u8>>, count: int)
    requires
        0 <= count <= fields.len(),
    ensures
        cursor.put_all(fields) == cursor.put_all(fields.take(count)).put_all(fields.skip(count)),
    decreases fields.len() - count,
{
    if count == fields.len() {
        assert(fields.take(count) =~= fields);
        assert(fields.skip(count) =~= Seq::<Seq<u8>>::empty());
    } else {
        let rest = fields.skip(count);
        assert(rest.drop_last() =~= fields.drop_last().skip(count));
        assert(fields.drop_last().take(count) =~= fields.take(count));
        lemma_put_all_split(cursor, fields.drop_last(), count);
    }
}

/// The first `k` of some fields take no more bytes than all of them.
proof fn lemma_total_len_take(fields: Seq<Seq<u8>>, k: int)
    requires
        0 <= k <= fields.len(),
    ensures
        total_len(fields.take(k)) <= total_len(fields),
    decreases fields.len() - k,
{
    if k < fields.len() {
        lemma_total_len_take(fields, k + 1);
        assert(fields.take(k + 1).drop_last() =~= fields.take(k));
    } else {
        assert(fields.take(k) =~= fields);
    }
}

/// Encodings put one after the other are as long as they are together.
proof fn lemma_concat_len(fields: Seq<Seq<u8>>)
    ensures
        concat(fields).len() == total_len(fields),
    decreases fields.len(),
{
    if fields.len() > 0 {
        lemma_concat_len(fields.drop_last());
    }
}

/// The state after the first `k` of the fields that fill a page exactly:
/// their encodings, one after the other, then what the page held.
proof fn lemma_exact_fit_front(page: Seq<u8>, fields: Seq<Seq<u8>>, k: int)
    requires
        page.len() == total_len(fields),
        0 <= k <= fields.len(),
    ensures
        (Cursor { page: page, position: 0 }).put_all(fields.take(k)).position == total_len(
            fields.take(k),
        ),
        (Cursor { page: page, position: 0 }).put_all(fields.take(k)).page == concat(
            fields.take(k),
        ) + page.skip(total_len(fields.take(k)) as int),
        k > 0 ==> (Cursor { page: page, position: 0 }).put_all(fields.take(k - 1)).fits(
            fields[k - 1].len(),
        ),
    decreases k,
{
    let start = Cursor { page: page, position: 0 };
    let now = fields.take(k);
    if k == 0 {
        assert(now =~= Seq::<Seq<u8>>::empty());
        assert(start.put_all(now).page =~= concat(now) + page.skip(0));
    } else {
        let sooner = fields.take(k - 1);
        let bytes = fields[k - 1];
        lemma_exact_fit_front(page, fields, k - 1);
        lemma_total_len_take(fields, k);
        lemma_concat_len(sooner);
        assert(now.drop_last() =~= sooner);
        assert(now.last() == bytes);
        let before = start.put_all(sooner);
        assert(start.put_all(now) == before.put(bytes));
        assert(total_len(now) == total_len(sooner) + bytes.len());
        assert(concat(now) == concat(sooner) + bytes);
        assert(before.fits(bytes.len()));
        assert(before.put(bytes).page =~= concat(now) + page.skip(total_len(now) as int));
    }
}

/// Fields that fill a page exactly can all be written to it, from its first
/// byte on: every write succeeds, the page then holds the encodings one
/// after the other, and the position is the page's end. Whatever field is
/// tried next is refused for want of space, with nothing available, and the
/// page stays as it is.
pub proof fn lemma_exact_fit(page: Seq<u8>, fields: Seq<Seq<u8>>, extra: Seq<u8>)
    requires
        page.len() == total_len(fields),
        extra.len() >= 1,
    ensures
        forall|k: int|
            0 <= k < fields.len() ==> (#[trigger] (Cursor { page: page, position: 0 }).put_all(
                fields.take(k),
            )).space_for(fields[k].len()) == Ok::<(), Error>(()),
        (Cursor { page: page, position: 0 }).put_all(fields) == (Cursor {
            page: concat(fields),
            position: page.len(),
        }),
        (Cursor { page: page, position: 0 }).put_all(fields).space_for(extra.len())
            == Err::<(), Error>(insufficient(extra.len() as int, 0)),
        (Cursor { page: page, position: 0 }).put_all(fields).put(extra) == (Cursor {
            page: page,
            position: 0,
        }).put_all(fields),
{
    let start = Cursor { page: page, position: 0 };
    assert forall|k: int| 0 <= k < fields.len() implies (#[trigger] start.put_all(
        fields.take(k),
    )).space_for(fields[k].len()) == Ok::<(), Error>(()) by {
        lemma_exact_fit_front(page, fields, k + 1);
    }
    lemma_exact_fit_front(page, fields, fields.len() as int);
    assert(fields.take(fields.len() as int) =~= fields);
    lemma_concat_len(fields);
    assert(start.put_all(fields).page =~= concat(fields));
}

/// A field that was written stays where it is, whatever is written or
/// refused after it: if the write of the field at index `k` of a sequence
/// succeeds, then after the whole sequence the bytes from the position of
/// that write on are that field's encoding, followed by others. So the
/// field can be read there again, as unpacking an encoding gives the value
/// back whatever follows it. A write that is refused leaves the state as it
/// was: nothing of the refused field is on the page.
pub proof fn lemma_written_fields_stay(start: Cursor, fields: Seq<Seq<u8>>, k: int)
    requires
        0 <= k < fields.len(),
    ensures
        start.put_all(fields.take(k)).fits(fields[k].len()) ==> (Cursor {
            page: start.put_all(fields).page,
            position: start.put_all(fields.take(k)).position,
        }).remaining() == fields[k] + (Cursor {
            page: start.put_all(fields).page,
            position: start.put_all(fields.take(k)).position,
        }).remaining().skip(fields[k].len() as int),
        !start.put_all(fields.take(k)).fits(fields[k].len()) ==> start.put_all(fields.take(k + 1))
            == start.put_all(fields.take(k)),
{
    let before = start.put_all(fields.take(k));
    let after = start.put_all(fields.take(k + 1));
    assert(fields.take(k + 1).drop_last() =~= fields.take(k));
    assert(fields.take(k + 1).last() == fields[k]);
    assert(after == before.put(fields[k]));
    lemma_put_all_split(start, fields, k + 1);
    lemma_put_all_keeps_front(after, fields.skip(k + 1));
    if before.fits(fields[k].len()) {
        let end = start.put_all(fields);
        let found = (Cursor { page: end.page, position: before.position }).remaining();
        assert(found =~= fields[k] + found.skip(fields[k].len() as int)) by {
            assert forall|i: int| 0 <= i < fields[k].len() implies found[i] == fields[k][i] by {
                assert(after.page[before.position + i] == fields[k][i]);
            }
        }
    }
}

/// Writing a VARBINARY is writing its encoding, with one exception: where
/// the page has room for a payload that is too long for the length prefix,
/// the payload is refused though its bytes would fit.
pub proof fn lemma_put_array_is_put(cursor: Cursor, payload: Seq<u8>)
    ensures
        varbinary_bytes(payload).len() == 4 + payload.len(),
        fits_prefix(payload.len()) || !cursor.fits(4 + payload.len()) ==> {
            &&& cursor.put_array_result(payload) == cursor.space_for(4 + payload.len())
            &&& cursor.put_array(payload) == cursor.put(varbinary_bytes(payload))
        },
        !fits_prefix(payload.len()) && cursor.fits(4 + payload.len()) ==> {
            &&& cursor.put_array_result(payload) == Err::<(), Error>(Error::InvalidEncoding)
            &&& cursor.put_array(payload) == cursor
        },
{
}

} // verus!
