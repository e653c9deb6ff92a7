//! Unpacking one value from the front of a byte buffer.
//!
//! Each function reads the encoding at offset 0. A buffer that is too short
//! is reported as `Error::InsufficientSpace`; bytes that encode no value as
//! `Error::InvalidEncoding`.

use vstd::prelude::*;
use vstd::slice::*;
use vstd::string::*;
use vstd::utf8::{encode_utf8_decode_utf8, valid_utf8};
use crate::error::Error;
use crate::protocol::layout::{
    le_value8, signed, unpacked_array, unpacked_bigint, unpacked_bool, unpacked_float,
    unpacked_int, unpacked_smallint, unpacked_string,
};

verus! {

/// The error of `core::str::from_utf8`. The library reads nothing from it.
#[verifier::external_type_specification]
#[verifier::external_body]
pub struct ExUtf8Error(core::str::Utf8Error);

/// `core::str::from_utf8` succeeds exactly on the byte sequences that are
/// valid UTF-8, and the string that it returns consists of the bytes given.
pub assume_specification[ core::str::from_utf8 ](v: &[u8]) -> (res: Result<
    &str,
    core::str::Utf8Error,
>)
    ensures
        res is Ok <==> valid_utf8(v@),
        res is Ok ==> res->Ok_0.spec_bytes() == v@,
;

proof fn lemma_value_of_2(b0: u8, b1: u8)
    ensures
        ((b0 as i16 & 0xFFi16) | (b1 as i16 & 0xFFi16) << 8) == signed(
            b0 + 0x100 * b1,
            0x1_0000,
        ),
{
    assert(((b0 as i16 & 0xFFi16) | (b1 as i16 & 0xFFi16) << 8) == (if 2 * (b0 + 0x100 * b1)
        >= 0x1_0000 {
        b0 + 0x100 * b1 - 0x1_0000
    } else {
        b0 + 0x100 * b1
    })) by (bit_vector);
}

proof fn lemma_value_of_4(b0: u8, b1: u8, b2: u8, b3: u8)
    ensures
        ((b0 as i32 & 0xFFi32) | (b1 as i32 & 0xFFi32) << 8 | (b2 as i32 & 0xFFi32) << 16 | (b3
            as i32 & 0xFFi32) << 24) == signed(
            b0 + 0x100 * b1 + 0x1_0000 * b2 + 0x100_0000 * b3,
            0x1_0000_0000,
        ),
{
    assert(((b0 as i32 & 0xFFi32) | (b1 as i32 & 0xFFi32) << 8 | (b2 as i32 & 0xFFi32) << 16 | (b3
        as i32 & 0xFFi32) << 24) == (if 2 * (b0 + 0x100 * b1 + 0x1_0000 * b2 + 0x100_0000 * b3)
        >= 0x1_0000_0000 {
        b0 + 0x100 * b1 + 0x1_0000 * b2 + 0x100_0000 * b3 - 0x1_0000_0000
    } else {
        b0 + 0x100 * b1 + 0x1_0000 * b2 + 0x100_0000 * b3
    })) by (bit_vector);
}

proof fn lemma_value_of_8(b0: u8, b1: u8, b2: u8, b3: u8, b4: u8, b5: u8, b6: u8, b7: u8)
    ensures
        ((b0 as u64 & 0xFFu64) | (b1 as u64 & 0xFFu64) << 8 | (b2 as u64 & 0xFFu64) << 16 | (b3
            as u64 & 0xFFu64) << 24 | (b4 as u64 & 0xFFu64) << 32 | (b5 as u64 & 0xFFu64) << 40 | (
        b6 as u64 & 0xFFu64) << 48 | (b7 as u64 & 0xFFu64) << 56) == b0 + 0x100 * b1 + 0x1_0000
            * b2 + 0x100_0000 * b3 + 0x1_0000_0000 * b4 + 0x100_0000_0000 * b5
            + 0x1_0000_0000_0000 * b6 + 0x100_0000_0000_0000 * b7,
{
    assert(((b0 as u64 & 0xFFu64) | (b1 as u64 & 0xFFu64) << 8 | (b2 as u64 & 0xFFu64) << 16 | (b3
        as u64 & 0xFFu64) << 24 | (b4 as u64 & 0xFFu64) << 32 | (b5 as u64 & 0xFFu64) << 40 | (b6
        as u64 & 0xFFu64) << 48 | (b7 as u64 & 0xFFu64) << 56) == b0 + 0x100 * b1 + 0x1_0000 * b2
        + 0x100_0000 * b3 + 0x1_0000_0000 * b4 + 0x100_0000_0000 * b5 + 0x1_0000_0000_0000 * b6
        + 0x100_0000_0000_0000 * b7) by (bit_vector);
}

proof fn lemma_signed_of_u64(u: u64)
    ensures
        u as i64 == signed(u as int, 0x1_0000_0000_0000_0000),
{
    assert(u as i64 == (if 2 * u >= 0x1_0000_0000_0000_0000 {
        u - 0x1_0000_0000_0000_0000
    } else {
        u as int
    })) by (bit_vector);
}

/// Reads the eight bytes at the front of `data` as an unsigned number.
fn unpack_u64(data: &[u8]) -> (value: u64)
    requires
        data@.len() >= 8,
    ensures
        value == le_value8(data@),
{
    proof {
        lemma_value_of_8(
            data@[0],
            data@[1],
            data@[2],
            data@[3],
            data@[4],
            data@[5],
            data@[6],
            data@[7],
        );
    }
    (data[0] as u64 & 0xFFu64) | (data[1] as u64 & 0xFFu64) << 8 | (data[2] as u64 & 0xFFu64) << 16
        | (data[3] as u64 & 0xFFu64) << 24 | (data[4] as u64 & 0xFFu64) << 32 | (data[5] as u64
        & 0xFFu64) << 40 | (data[6] as u64 & 0xFFu64) << 48 | (data[7] as u64 & 0xFFu64) << 56
}

/// Unpacks an INTEGER.
pub fn unpack_int(data: &[u8]) -> (res: Result<i32, Error>)
    ensures
        res == unpacked_int(data@),
{
    if data.len() < 4 {
        return Err(Error::InsufficientSpace { required: 4, available: data.len() });
    }
    proof {
        lemma_value_of_4(data@[0], data@[1], data@[2], data@[3]);
    }
    Ok(
        (data[0] as i32 & 0xFFi32) | (data[1] as i32 & 0xFFi32) << 8 | (data[2] as i32 & 0xFFi32)
            << 16 | (data[3] as i32 & 0xFFi32) << 24,
    )
}

/// Unpacks a SMALLINT.
pub fn unpack_smallint(data: &[u8]) -> (res: Result<i16, Error>)
    ensures
        res == unpacked_smallint(data@),
{
    if data.len() < 2 {
        return Err(Error::InsufficientSpace { required: 2, available: data.len() });
    }
    proof {
        lemma_value_of_2(data@[0], data@[1]);
    }
    Ok((data[0] as i16 & 0xFFi16) | (data[1] as i16 & 0xFFi16) << 8)
}

/// Unpacks a BIGINT.
pub fn unpack_bigint(data: &[u8]) -> (res: Result<i64, Error>)
    ensures
        res == unpacked_bigint(data@),
{
    if data.len() < 8 {
        return Err(Error::InsufficientSpace { required: 8, available: data.len() });
    }
    let unsigned = unpack_u64(data);
    proof {
        lemma_signed_of_u64(unsigned);
    }
    Ok(unsigned as i64)
}

/// Unpacks a FLOAT as its IEEE-754 bit pattern: the pattern is the eight
/// bytes read, so no rounding takes place.
pub fn unpack_float(data: &[u8]) -> (res: Result<u64, Error>)
    ensures
        res == unpacked_float(data@),
{
    if data.len() < 8 {
        return Err(Error::InsufficientSpace { required: 8, available: data.len() });
    }
    Ok(unpack_u64(data))
}

/// Unpacks a BOOLEAN.
pub fn unpack_bool(data: &[u8]) -> (res: Result<bool, Error>)
    ensures
        res == unpacked_bool(data@),
{
    if data.len() < 1 {
        return Err(Error::InsufficientSpace { required: 1, available: data.len() });
    }
    Ok(data[0] != 0)
}

/// Unpacks a VARCHAR: the string that the payload spells in UTF-8.
pub fn unpack_string(data: &[u8]) -> (res: Result<&str, Error>)
    ensures
        match unpacked_string(data@) {
            Ok(chars) => res is Ok && res->Ok_0@ == chars,
            Err(e) => res == Err::<&str, Error>(e),
        },
{
    let payload = unpack_array(data)?;
    match core::str::from_utf8(payload) {
        Ok(text) => {
            proof {
                encode_utf8_decode_utf8(text@);
            }
            Ok(text)
        },
        Err(_) => Err(Error::InvalidEncoding),
    }
}

/// Unpacks a VARBINARY: the payload that follows the length prefix.
pub fn unpack_array(data: &[u8]) -> (res: Result<&[u8], Error>)
    ensures
        match unpacked_array(data@) {
            Ok(payload) => res is Ok && res->Ok_0@ == payload,
            Err(e) => res == Err::<&[u8], Error>(e),
        },
{
    let prefix = unpack_int(data)?;
    if prefix < 0 {
        return Err(Error::InvalidEncoding);
    }
    let len = prefix as usize;
    if data.len() - 4 < len {
        return Err(Error::InsufficientSpace { required: 4 + len, available: data.len() });
    }
    Ok(slice_subrange(data, 4, 4 + len))
}

} // verus!
