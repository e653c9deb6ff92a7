//! Packing one value into the front of a byte buffer.
//!
//! Each function writes the value's encoding at offset 0 and returns the
//! number of bytes written. A buffer that is too short is left untouched and
//! reported as `Error::InsufficientSpace`.

use vstd::prelude::*;
use vstd::slice::*;
use vstd::string::*;
use vstd::utf8::encode_utf8;
use crate::error::Error;
use crate::protocol::layout::{
    bigint_bytes, bool_bytes, float_bytes, insufficient, int_bytes, packed, packed_array,
    packed_array_len, packed_len, smallint_bytes, unsigned_bytes, MAX_PAYLOAD_LEN,
};

verus! {

proof fn lemma_bytes_of_i16(v: i16)
    ensures
        v as u8 == (v as int % 0x100) as u8,
        (v >> 8) as u8 == (v as int / 0x100 % 0x100) as u8,
{
    assert(v as u8 == (v as int % 0x100) as u8 && (v >> 8) as u8 == (v as int / 0x100 % 0x100)
        as u8) by (bit_vector);
}

proof fn lemma_bytes_of_i32(v: i32)
    ensures
        v as u8 == (v as int % 0x100) as u8,
        (v >> 8) as u8 == (v as int / 0x100 % 0x100) as u8,
        (v >> 16) as u8 == (v as int / 0x1_0000 % 0x100) as u8,
        (v >> 24) as u8 == (v as int / 0x100_0000 % 0x100) as u8,
{
    assert(v as u8 == (v as int % 0x100) as u8 && (v >> 8) as u8 == (v as int / 0x100 % 0x100)
        as u8 && (v >> 16) as u8 == (v as int / 0x1_0000 % 0x100) as u8 && (v >> 24) as u8 == (v
        as int / 0x100_0000 % 0x100) as u8) by (bit_vector);
}

proof fn lemma_bytes_of_u32(v: u32)
    ensures
        v as u8 == (v as int % 0x100) as u8,
        (v >> 8) as u8 == (v as int / 0x100 % 0x100) as u8,
        (v >> 16) as u8 == (v as int / 0x1_0000 % 0x100) as u8,
        (v >> 24) as u8 == (v as int / 0x100_0000 % 0x100) as u8,
{
    assert(v as u8 == (v as int % 0x100) as u8 && (v >> 8) as u8 == (v as int / 0x100 % 0x100)
        as u8 && (v >> 16) as u8 == (v as int / 0x1_0000 % 0x100) as u8 && (v >> 24) as u8 == (v
        as int / 0x100_0000 % 0x100) as u8) by (bit_vector);
}

proof fn lemma_bytes_of_i64(v: i64)
    ensures
        v as u8 == (v as int % 0x100) as u8,
        (v >> 8) as u8 == (v as int / 0x100 % 0x100) as u8,
        (v >> 16) as u8 == (v as int / 0x1_0000 % 0x100) as u8,
        (v >> 24) as u8 == (v as int / 0x100_0000 % 0x100) as u8,
        (v >> 32) as u8 == (v as int / 0x1_0000_0000 % 0x100) as u8,
        (v >> 40) as u8 == (v as int / 0x100_0000_0000 % 0x100) as u8,
        (v >> 48) as u8 == (v as int / 0x1_0000_0000_0000 % 0x100) as u8,
        (v >> 56) as u8 == (v as int / 0x100_0000_0000_0000 % 0x100) as u8,
{
    assert(v as u8 == (v as int % 0x100) as u8 && (v >> 8) as u8 == (v as int / 0x100 % 0x100)
        as u8 && (v >> 16) as u8 == (v as int / 0x1_0000 % 0x100) as u8 && (v >> 24) as u8 == (v
        as int / 0x100_0000 % 0x100) as u8) by (bit_vector);
    assert((v >> 32) as u8 == (v as int / 0x1_0000_0000 % 0x100) as u8 && (v >> 40) as u8 == (v
        as int / 0x100_0000_0000 % 0x100) as u8 && (v >> 48) as u8 == (v as int
        / 0x1_0000_0000_0000 % 0x100) as u8 && (v >> 56) as u8 == (v as int
        / 0x100_0000_0000_0000 % 0x100) as u8) by (bit_vector);
}

proof fn lemma_bytes_of_u64(v: u64)
    ensures
        v as u8 == (v as int % 0x100) as u8,
        (v >> 8) as u8 == (v as int / 0x100 % 0x100) as u8,
        (v >> 16) as u8 == (v as int / 0x1_0000 % 0x100) as u8,
        (v >> 24) as u8 == (v as int / 0x100_0000 % 0x100) as u8,
        (v >> 32) as u8 == (v as int / 0x1_0000_0000 % 0x100) as u8,
        (v >> 40) as u8 == (v as int / 0x100_0000_0000 % 0x100) as u8,
        (v >> 48) as u8 == (v as int / 0x1_0000_0000_0000 % 0x100) as u8,
        (v >> 56) as u8 == (v as int / 0x100_0000_0000_0000 % 0x100) as u8,
{
    assert(v as u8 == (v as int % 0x100) as u8 && (v >> 8) as u8 == (v as int / 0x100 % 0x100)
        as u8 && (v >> 16) as u8 == (v as int / 0x1_0000 % 0x100) as u8 && (v >> 24) as u8 == (v
        as int / 0x100_0000 % 0x100) as u8) by (bit_vector);
    assert((v >> 32) as u8 == (v as int / 0x1_0000_0000 % 0x100) as u8 && (v >> 40) as u8 == (v
        as int / 0x100_0000_0000 % 0x100) as u8 && (v >> 48) as u8 == (v as int
        / 0x1_0000_0000_0000 % 0x100) as u8 && (v >> 56) as u8 == (v as int
        / 0x100_0000_0000_0000 % 0x100) as u8) by (bit_vector);
}

/// Packs an INTEGER.
pub fn pack_int(data: &mut [u8], value: i32) -> (res: Result<usize, Error>)
    ensures
        res == packed_len(old(data)@, int_bytes(value)),
        final(data)@ == packed(old(data)@, int_bytes(value)),
{
    if data.len() < 4 {
        return Err(Error::InsufficientSpace { required: 4, available: data.len() });
    }
    proof {
        lemma_bytes_of_i32(value);
    }
    data[0] = value as u8;
    data[1] = (value >> 8) as u8;
    data[2] = (value >> 16) as u8;
    data[3] = (value >> 24) as u8;
    assert(data@ =~= packed(old(data)@, int_bytes(value)));
    Ok(4)
}

/// Packs a SMALLINT.
pub fn pack_smallint(data: &mut [u8], value: i16) -> (res: Result<usize, Error>)
    ensures
        res == packed_len(old(data)@, smallint_bytes(value)),
        final(data)@ == packed(old(data)@, smallint_bytes(value)),
{
    if data.len() < 2 {
        return Err(Error::InsufficientSpace { required: 2, available: data.len() });
    }
    proof {
        lemma_bytes_of_i16(value);
    }
    data[0] = value as u8;
    data[1] = (value >> 8) as u8;
    assert(data@ =~= packed(old(data)@, smallint_bytes(value)));
    Ok(2)
}

/// Packs a BIGINT.
pub fn pack_bigint(data: &mut [u8], value: i64) -> (res: Result<usize, Error>)
    ensures
        res == packed_len(old(data)@, bigint_bytes(value)),
        final(data)@ == packed(old(data)@, bigint_bytes(value)),
{
    if data.len() < 8 {
        return Err(Error::InsufficientSpace { required: 8, available: data.len() });
    }
    proof {
        lemma_bytes_of_i64(value);
    }
    data[0] = value as u8;
    data[1] = (value >> 8) as u8;
    data[2] = (value >> 16) as u8;
    data[3] = (value >> 24) as u8;
    data[4] = (value >> 32) as u8;
    data[5] = (value >> 40) as u8;
    data[6] = (value >> 48) as u8;
    data[7] = (value >> 56) as u8;
    assert(data@ =~= packed(old(data)@, bigint_bytes(value)));
    Ok(8)
}

/// Packs a FLOAT, given by its IEEE-754 bit pattern: the eight bytes are
/// those of the pattern, so no precision is lost.
pub fn pack_float(data: &mut [u8], bits: u64) -> (res: Result<usize, Error>)
    ensures
        res == packed_len(old(data)@, float_bytes(bits)),
        final(data)@ == packed(old(data)@, float_bytes(bits)),
{
    if data.len() < 8 {
        return Err(Error::InsufficientSpace { required: 8, available: data.len() });
    }
    proof {
        lemma_bytes_of_u64(bits);
    }
    data[0] = bits as u8;
    data[1] = (bits >> 8) as u8;
    data[2] = (bits >> 16) as u8;
    data[3] = (bits >> 24) as u8;
    data[4] = (bits >> 32) as u8;
    data[5] = (bits >> 40) as u8;
    data[6] = (bits >> 48) as u8;
    data[7] = (bits >> 56) as u8;
    assert(data@ =~= packed(old(data)@, float_bytes(bits)));
    Ok(8)
}

/// Packs a BOOLEAN.
pub fn pack_bool(data: &mut [u8], value: bool) -> (res: Result<usize, Error>)
    ensures
        res == packed_len(old(data)@, bool_bytes(value)),
        final(data)@ == packed(old(data)@, bool_bytes(value)),
{
    if data.len() < 1 {
        return Err(Error::InsufficientSpace { required: 1, available: data.len() });
    }
    data[0] = if value {
        1
    } else {
        0
    };
    assert(data@ =~= packed(old(data)@, bool_bytes(value)));
    Ok(1)
}

/// Packs an unsigned 32-bit number.
pub fn pack_unsigned(data: &mut [u8], value: u32) -> (res: Result<usize, Error>)
    ensures
        res == packed_len(old(data)@, unsigned_bytes(value)),
        final(data)@ == packed(old(data)@, unsigned_bytes(value)),
{
    if data.len() < 4 {
        return Err(Error::InsufficientSpace { required: 4, available: data.len() });
    }
    proof {
        lemma_bytes_of_u32(value);
    }
    data[0] = value as u8;
    data[1] = (value >> 8) as u8;
    data[2] = (value >> 16) as u8;
    data[3] = (value >> 24) as u8;
    assert(data@ =~= packed(old(data)@, unsigned_bytes(value)));
    Ok(4)
}

/// Packs a VARCHAR: the length of the string's UTF-8 form, then that form.
/// Where the buffer is long enough, a string too long for the prefix is
/// refused with `Error::InvalidEncoding`.
pub fn pack_string(data: &mut [u8], value: &str) -> (res: Result<usize, Error>)
    ensures
        res == packed_array_len(old(data)@, encode_utf8(value@)),
        final(data)@ == packed_array(old(data)@, encode_utf8(value@)),
{
    pack_array(data, value.as_bytes())
}

/// Copies `src` over the first bytes of `dst`.
pub fn copy_array(dst: &mut [u8], src: &[u8]) -> (res: Result<(), Error>)
    ensures
        src@.len() <= old(dst)@.len() ==> res == Ok::<(), Error>(()),
        src@.len() > old(dst)@.len() ==> res == Err::<(), Error>(
            insufficient(src@.len() as int, old(dst)@.len() as int),
        ),
        final(dst)@ == packed(old(dst)@, src@),
{
    if dst.len() < src.len() {
        return Err(Error::InsufficientSpace { required: src.len(), available: dst.len() });
    }
    let mut pos: usize = 0;
    while pos < src.len()
        invariant
            pos <= src@.len() <= dst@.len(),
            dst@.len() == old(dst)@.len(),
            dst@ =~= src@.take(pos as int) + old(dst)@.skip(pos as int),
        decreases src@.len() - pos,
    {
        dst[pos] = src[pos];
        pos += 1;
    }
    assert(src@.take(pos as int) =~= src@);
    Ok(())
}

/// Packs a VARBINARY: the payload's length as an INTEGER, then the payload.
/// Where the buffer is long enough, a payload too long for the prefix is
/// refused with `Error::InvalidEncoding`.
pub fn pack_array(data: &mut [u8], value: &[u8]) -> (res: Result<usize, Error>)
    ensures
        res == packed_array_len(old(data)@, value@),
        final(data)@ == packed_array(old(data)@, value@),
{
    if data.len() < 4 || data.len() - 4 < value.len() {
        let required = if value.len() > usize::MAX - 4 {
            usize::MAX
        } else {
            4 + value.len()
        };
        return Err(Error::InsufficientSpace { required: required, available: data.len() });
    }
    if value.len() > MAX_PAYLOAD_LEN {
        return Err(Error::InvalidEncoding);
    }
    let (prefix, payload) = data.split_at_mut(4);
    let _ = pack_int(prefix, value.len() as i32);
    let _ = copy_array(payload, value);
    assert(data@ =~= packed_array(old(data)@, value@));
    Ok(4 + value.len())
}

} // verus!
