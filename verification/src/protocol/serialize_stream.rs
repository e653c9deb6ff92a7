//! Writing a sequence of fields to a page.

use vstd::prelude::*;
use vstd::slice::*;
use vstd::string::*;
use vstd::utf8::encode_utf8;
use crate::data_type::DataType;
use crate::error::Error;
use crate::protocol::cursor::{lemma_put_packs_remaining, Cursor};
use crate::protocol::layout::{
    bigint_bytes, bool_bytes, float_bytes, int_bytes, smallint_bytes, varbinary_bytes,
    varchar_bytes, MAX_PAYLOAD_LEN,
};
use crate::protocol::pack::{
    pack_array, pack_bigint, pack_bool, pack_float, pack_int, pack_smallint, pack_string,
};
use crate::storage::MemoryPage;

verus! {

/// Serializes and writes values to MemoryPage.
/// Always writes values in little-endian byte order.
///
/// The stream borrows the page for as long as it lives. A write that does
/// not fit changes neither the page nor the position.
///
/// The fields are public for the contracts' sake: they speak of the page
/// that the stream has borrowed and of what it will hold when the borrow
/// ends.
#[derive(Debug)]
pub struct SerializeStream<'a> {
    pub position: usize,
    pub page: &'a mut MemoryPage,
}

impl<'a> View for SerializeStream<'a> {
    type V = Cursor;

    open spec fn view(&self) -> Cursor {
        Cursor { page: self.page@, position: self.position as nat }
    }
}

impl<'a> SerializeStream<'a> {
    /// Creates new stream.
    pub fn new(page: &'a mut MemoryPage, pos: usize) -> (stream: Self)
        ensures
            stream@ == (Cursor { page: old(page)@, position: pos as nat }),
            final(page)@ == final(stream.page)@,
    {
        SerializeStream { position: pos, page: page }
    }

    /// The part of the page from the position on, to write to.
    fn tail(&mut self) -> (tail: &mut [u8])
        requires
            old(self).position <= old(self)@.page.len(),
        ensures
            tail@ == old(self)@.remaining(),
            final(self).position == old(self).position,
            final(self)@.page == old(self)@.page.take(old(self).position as int) + final(tail)@,
            *final(final(self).page) == *final(old(self).page),
    {
        let mem = self.page.data_mut();
        let (_, tail) = mem.split_at_mut(self.position);
        tail
    }

    /// Check that `val` more bytes fit in the page.
    fn check_available_space(&self, val: usize) -> (res: Result<(), Error>)
        ensures
            res == self@.space_for(val as nat),
            res is Ok ==> self.position + val <= self@.page.len() <= usize::MAX,
    {
        let len = self.page.data().len();
        if self.position > len {
            Err(Error::InsufficientSpace { required: val, available: 0 })
        } else if len - self.position < val {
            Err(Error::InsufficientSpace { required: val, available: len - self.position })
        } else {
            Ok(())
        }
    }

    /// Check if we have enough memory in page to write a static typed value.
    fn check_static_type_len(&self, field_type: DataType) -> (res: Result<(), Error>)
        ensures
            res == self@.space_for(field_type.spec_static_len() as nat),
            res is Ok ==> self.position + field_type.spec_static_len() <= self@.page.len()
                <= usize::MAX,
    {
        self.check_available_space(field_type.static_len())
    }

    /// Check if we have enough memory in page to write a dynamic typed value.
    fn check_dynamic_type_len(&self, field_type: DataType, size: usize) -> (res: Result<
        (),
        Error,
    >)
        ensures
            res == self@.space_for((field_type.spec_static_len() + size) as nat),
            res is Ok ==> self.position + field_type.spec_static_len() + size
                <= self@.page.len() <= usize::MAX,
    {
        let field_len = field_type.static_len();
        if size > usize::MAX - field_len {
            let len = self.page.data().len();
            Err(
                Error::InsufficientSpace {
                    required: usize::MAX,
                    available: if self.position > len {
                        0
                    } else {
                        len - self.position
                    },
                },
            )
        } else {
            self.check_available_space(field_len + size)
        }
    }

    /// Write INTEGER to stream.
    pub fn write_int(&mut self, val: i32) -> (res: Result<(), Error>)
        ensures
            res == old(self)@.space_for(4),
            final(self)@ == old(self)@.put(int_bytes(val)),
            *final(final(self).page) == *final(old(self).page),
    {
        self.check_static_type_len(DataType::INTEGER)?;
        let _ = pack_int(self.tail(), val);
        self.position += 4;
        proof {
            lemma_put_packs_remaining(old(self)@, int_bytes(val));
        }
        Ok(())
    }

    /// Write SMALLINT to stream.
    pub fn write_smallint(&mut self, val: i16) -> (res: Result<(), Error>)
        ensures
            res == old(self)@.space_for(2),
            final(self)@ == old(self)@.put(smallint_bytes(val)),
            *final(final(self).page) == *final(old(self).page),
    {
        self.check_static_type_len(DataType::SMALLINT)?;
        let _ = pack_smallint(self.tail(), val);
        self.position += 2;
        proof {
            lemma_put_packs_remaining(old(self)@, smallint_bytes(val));
        }
        Ok(())
    }

    /// Write BIGINT to stream.
    pub fn write_bigint(&mut self, val: i64) -> (res: Result<(), Error>)
        ensures
            res == old(self)@.space_for(8),
            final(self)@ == old(self)@.put(bigint_bytes(val)),
            *final(final(self).page) == *final(old(self).page),
    {
        self.check_static_type_len(DataType::BIGINT)?;
        let _ = pack_bigint(self.tail(), val);
        self.position += 8;
        proof {
            lemma_put_packs_remaining(old(self)@, bigint_bytes(val));
        }
        Ok(())
    }

    /// Write BOOLEAN to stream.
    pub fn write_bool(&mut self, val: bool) -> (res: Result<(), Error>)
        ensures
            res == old(self)@.space_for(1),
            final(self)@ == old(self)@.put(bool_bytes(val)),
            *final(final(self).page) == *final(old(self).page),
    {
        self.check_static_type_len(DataType::BOOLEAN)?;
        let _ = pack_bool(self.tail(), val);
        self.position += 1;
        proof {
            lemma_put_packs_remaining(old(self)@, bool_bytes(val));
        }
        Ok(())
    }

    /// Write FLOAT to stream, given by its IEEE-754 bit pattern.
    pub fn write_float(&mut self, bits: u64) -> (res: Result<(), Error>)
        ensures
            res == old(self)@.space_for(8),
            final(self)@ == old(self)@.put(float_bytes(bits)),
            *final(final(self).page) == *final(old(self).page),
    {
        self.check_static_type_len(DataType::FLOAT)?;
        let _ = pack_float(self.tail(), bits);
        self.position += 8;
        proof {
            lemma_put_packs_remaining(old(self)@, float_bytes(bits));
        }
        Ok(())
    }

    /// Write VARCHAR to stream. Where the page has room for it, a string
    /// whose UTF-8 form is too long for the length prefix is refused with
    /// `Error::InvalidEncoding`.
    pub fn write_varchar(&mut self, val: &str) -> (res: Result<(), Error>)
        ensures
            res == old(self)@.put_array_result(encode_utf8(val@)),
            final(self)@ == old(self)@.put_array(encode_utf8(val@)),
            *final(final(self).page) == *final(old(self).page),
    {
        let size = val.as_bytes().len();
        self.check_dynamic_type_len(DataType::VARCHAR, size)?;
        if size > MAX_PAYLOAD_LEN {
            return Err(Error::InvalidEncoding);
        }
        let _ = pack_string(self.tail(), val);
        self.position += 4 + size;
        proof {
            lemma_put_packs_remaining(old(self)@, varchar_bytes(val@));
        }
        Ok(())
    }

    /// Write VARBINARY to stream. Where the page has room for it, a payload
    /// too long for the length prefix is refused with
    /// `Error::InvalidEncoding`.
    pub fn write_varbinary(&mut self, val: &[u8]) -> (res: Result<(), Error>)
        ensures
            res == old(self)@.put_array_result(val@),
            final(self)@ == old(self)@.put_array(val@),
            *final(final(self).page) == *final(old(self).page),
    {
        let size = val.len();
        self.check_dynamic_type_len(DataType::VARBINARY, size)?;
        if size > MAX_PAYLOAD_LEN {
            return Err(Error::InvalidEncoding);
        }
        let _ = pack_array(self.tail(), val);
        self.position += 4 + size;
        proof {
            lemma_put_packs_remaining(old(self)@, varbinary_bytes(val@));
        }
        Ok(())
    }
}

} // verus!
