//! Reading a sequence of fields from a page.

use vstd::prelude::*;
use vstd::slice::*;
use vstd::string::*;
use vstd::utf8::{decode_utf8_encode_utf8, encode_utf8};
use crate::data_type::DataType;
use crate::error::Error;
use crate::protocol::cursor::Cursor;
use crate::protocol::layout::{
    unpacked_array, unpacked_bigint, unpacked_bool, unpacked_float, unpacked_int,
    unpacked_smallint, unpacked_string,
};
use crate::protocol::unpacker::{
    unpack_array, unpack_bigint, unpack_bool, unpack_float, unpack_int, unpack_smallint,
    unpack_string,
};
use crate::storage::MemoryPage;

verus! {

/// Reads and deserializes values from MemoryPage.
/// Always reads values in little-endian byte order.
///
/// A read that fails leaves the position where it was. The fields are
/// public like those of the stream that writes.
#[derive(Debug)]
pub struct DeserializeStream<'a> {
    pub position: usize,
    pub page: &'a MemoryPage,
}

impl<'a> View for DeserializeStream<'a> {
    type V = Cursor;

    open spec fn view(&self) -> Cursor {
        Cursor { page: self.page@, position: self.position as nat }
    }
}

impl<'a> DeserializeStream<'a> {
    /// Creates new stream.
    pub fn new(page: &'a MemoryPage, pos: usize) -> (stream: Self)
        ensures
            stream@ == (Cursor { page: page@, position: pos as nat }),
    {
        DeserializeStream { position: pos, page: page }
    }

    /// Check if we have enough memory in page to read a value.
    fn check_space(&self, len: usize) -> (res: Result<(), Error>)
        ensures
            res == self@.space_for(len as nat),
            res is Ok ==> self.position + len <= self@.page.len() <= usize::MAX,
    {
        let size = self.page.data().len();
        if self.position > size {
            Err(Error::InsufficientSpace { required: len, available: 0 })
        } else if size - self.position < len {
            Err(Error::InsufficientSpace { required: len, available: size - self.position })
        } else {
            Ok(())
        }
    }

    /// The part of the page from the position on: nothing, if the position
    /// lies beyond the page's end.
    fn tail(&self) -> (tail: &'a [u8])
        ensures
            tail@ == self@.remaining(),
            self.position + tail@.len() <= usize::MAX,
    {
        let page: &'a MemoryPage = self.page;
        let mem = page.data();
        if self.position <= mem.len() {
            slice_subrange(mem, self.position, mem.len())
        } else {
            slice_subrange(mem, 0, 0)
        }
    }

    /// Read BOOLEAN from stream.
    pub fn read_bool(&mut self) -> (res: Result<bool, Error>)
        ensures
            res == unpacked_bool(old(self)@.remaining()),
            res is Ok ==> final(self)@ == old(self)@.advance(1),
            res is Err ==> final(self)@ == old(self)@,
    {
        self.check_space(DataType::BOOLEAN.static_len())?;
        let value = unpack_bool(self.tail())?;
        self.position += 1;
        Ok(value)
    }

    /// Read SMALLINT from stream.
    pub fn read_smallint(&mut self) -> (res: Result<i16, Error>)
        ensures
            res == unpacked_smallint(old(self)@.remaining()),
            res is Ok ==> final(self)@ == old(self)@.advance(2),
            res is Err ==> final(self)@ == old(self)@,
    {
        self.check_space(DataType::SMALLINT.static_len())?;
        let value = unpack_smallint(self.tail())?;
        self.position += 2;
        Ok(value)
    }

    /// Read integer from stream.
    pub fn read_int(&mut self) -> (res: Result<i32, Error>)
        ensures
            res == unpacked_int(old(self)@.remaining()),
            res is Ok ==> final(self)@ == old(self)@.advance(4),
            res is Err ==> final(self)@ == old(self)@,
    {
        self.check_space(DataType::INTEGER.static_len())?;
        let value = unpack_int(self.tail())?;
        self.position += 4;
        Ok(value)
    }

    /// Read BIGINT from stream.
    pub fn read_bigint(&mut self) -> (res: Result<i64, Error>)
        ensures
            res == unpacked_bigint(old(self)@.remaining()),
            res is Ok ==> final(self)@ == old(self)@.advance(8),
            res is Err ==> final(self)@ == old(self)@,
    {
        self.check_space(DataType::BIGINT.static_len())?;
        let value = unpack_bigint(self.tail())?;
        self.position += 8;
        Ok(value)
    }

    /// Read FLOAT from stream, as its IEEE-754 bit pattern.
    pub fn read_float(&mut self) -> (res: Result<u64, Error>)
        ensures
            res == unpacked_float(old(self)@.remaining()),
            res is Ok ==> final(self)@ == old(self)@.advance(8),
            res is Err ==> final(self)@ == old(self)@,
    {
        self.check_space(DataType::FLOAT.static_len())?;
        let bits = unpack_float(self.tail())?;
        self.position += 8;
        Ok(bits)
    }

    /// Read VARCHAR from stream. The position moves behind the payload,
    /// whose length is that of the string's UTF-8 form.
    pub fn read_varchar(&mut self) -> (res: Result<&'a str, Error>)
        ensures
            match unpacked_string(old(self)@.remaining()) {
                Ok(chars) => {
                    &&& res is Ok
                    &&& res->Ok_0@ == chars
                    &&& final(self)@ == old(self)@.advance(4 + encode_utf8(chars).len())
                },
                Err(e) => res == Err::<&str, Error>(e) && final(self)@ == old(self)@,
            },
    {
        let text = unpack_string(self.tail())?;
        proof {
            decode_utf8_encode_utf8(unpacked_array(self@.remaining())->Ok_0);
        }
        self.position += 4 + text.as_bytes().len();
        Ok(text)
    }

    /// Read VARBINARY from stream. The position moves behind the payload.
    pub fn read_varbinary(&mut self) -> (res: Result<&'a [u8], Error>)
        ensures
            match unpacked_array(old(self)@.remaining()) {
                Ok(payload) => {
                    &&& res is Ok
                    &&& res->Ok_0@ == payload
                    &&& final(self)@ == old(self)@.advance(4 + payload.len())
                },
                Err(e) => res == Err::<&[u8], Error>(e) && final(self)@ == old(self)@,
            },
    {
        let payload = unpack_array(self.tail())?;
        self.position += 4 + payload.len();
        Ok(payload)
    }
}

} // verus!
