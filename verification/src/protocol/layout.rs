//! The byte layout of an encoded field, stated as functions on byte
//! sequences. Numbers are little-endian two's complement, whatever the host;
//! a FLOAT is the eight bytes of its IEEE-754 bit pattern; a VARCHAR or a
//! VARBINARY is an INTEGER that holds the payload's length in bytes, then
//! the payload. Fields follow one another without padding.

use vstd::prelude::*;
use vstd::utf8::*;
use crate::error::Error;

verus! {

/// The signed number that the unsigned number `u` stands for in two's
/// complement, where `modulus` is two to the power of the width in bits.
pub open spec fn signed(u: int, modulus: int) -> int {
    if 2 * u >= modulus {
        u - modulus
    } else {
        u
    }
}

/// The two low bytes of `v`, least significant first.
pub open spec fn le_bytes2(v: int) -> Seq<u8> {
    seq![(v % 0x100) as u8, (v / 0x100 % 0x100) as u8]
}

/// The four low bytes of `v`, least significant first.
pub open spec fn le_bytes4(v: int) -> Seq<u8> {
    seq![
        (v % 0x100) as u8,
        (v / 0x100 % 0x100) as u8,
        (v / 0x1_0000 % 0x100) as u8,
        (v / 0x100_0000 % 0x100) as u8,
    ]
}

/// The eight low bytes of `v`, least significant first.
pub open spec fn le_bytes8(v: int) -> Seq<u8> {
    seq![
        (v % 0x100) as u8,
        (v / 0x100 % 0x100) as u8,
        (v / 0x1_0000 % 0x100) as u8,
        (v / 0x100_0000 % 0x100) as u8,
        (v / 0x1_0000_0000 % 0x100) as u8,
        (v / 0x100_0000_0000 % 0x100) as u8,
        (v / 0x1_0000_0000_0000 % 0x100) as u8,
        (v / 0x100_0000_0000_0000 % 0x100) as u8,
    ]
}

/// The unsigned number that the first two bytes of `b` spell.
pub open spec fn le_value2(b: Seq<u8>) -> int {
    b[0] + 0x100 * b[1]
}

/// The unsigned number that the first four bytes of `b` spell.
pub open spec fn le_value4(b: Seq<u8>) -> int {
    b[0] + 0x100 * b[1] + 0x1_0000 * b[2] + 0x100_0000 * b[3]
}

/// The unsigned number that the first eight bytes of `b` spell.
pub open spec fn le_value8(b: Seq<u8>) -> int {
    b[0] + 0x100 * b[1] + 0x1_0000 * b[2] + 0x100_0000 * b[3] + 0x1_0000_0000 * b[4]
        + 0x100_0000_0000 * b[5] + 0x1_0000_0000_0000 * b[6] + 0x100_0000_0000_0000 * b[7]
}

/// Encoding of a BOOLEAN.
pub open spec fn bool_bytes(v: bool) -> Seq<u8> {
    seq![if v { 1u8 } else { 0u8 }]
}

/// The BOOLEAN at the start of `b`: any nonzero byte is true.
pub open spec fn bool_value(b: Seq<u8>) -> bool {
    b[0] != 0
}

/// Encoding of a SMALLINT.
pub open spec fn smallint_bytes(v: i16) -> Seq<u8> {
    le_bytes2(v as int)
}

/// The SMALLINT at the start of `b`.
pub open spec fn smallint_value(b: Seq<u8>) -> i16 {
    signed(le_value2(b), 0x1_0000) as i16
}

/// Encoding of an INTEGER.
pub open spec fn int_bytes(v: i32) -> Seq<u8> {
    le_bytes4(v as int)
}

/// The INTEGER at the start of `b`.
pub open spec fn int_value(b: Seq<u8>) -> i32 {
    signed(le_value4(b), 0x1_0000_0000) as i32
}

/// Encoding of an unsigned 32-bit number.
pub open spec fn unsigned_bytes(v: u32) -> Seq<u8> {
    le_bytes4(v as int)
}

/// Encoding of a BIGINT.
pub open spec fn bigint_bytes(v: i64) -> Seq<u8> {
    le_bytes8(v as int)
}

/// The BIGINT at the start of `b`.
pub open spec fn bigint_value(b: Seq<u8>) -> i64 {
    signed(le_value8(b), 0x1_0000_0000_0000_0000) as i64
}

/// Encoding of a FLOAT, given by its IEEE-754 bit pattern.
pub open spec fn float_bytes(bits: u64) -> Seq<u8> {
    le_bytes8(bits as int)
}

/// The bit pattern of the FLOAT at the start of `b`.
pub open spec fn float_value(b: Seq<u8>) -> u64 {
    le_value8(b) as u64
}

/// The greatest length, in bytes, that a payload can have: the greatest
/// INTEGER, as the length prefix is one.
pub const MAX_PAYLOAD_LEN: usize = 0x7fff_ffff;

/// Whether a payload of `len` bytes has a length prefix.
pub open spec fn fits_prefix(len: nat) -> bool {
    len <= MAX_PAYLOAD_LEN
}

/// Encoding of a VARBINARY with the given payload.
pub open spec fn varbinary_bytes(payload: Seq<u8>) -> Seq<u8> {
    int_bytes(payload.len() as i32) + payload
}

/// Encoding of a VARCHAR: the payload is the string's UTF-8 form, and the
/// prefix counts its bytes, not its characters.
pub open spec fn varchar_bytes(chars: Seq<char>) -> Seq<u8> {
    varbinary_bytes(encode_utf8(chars))
}

/// A count of bytes as a `usize`: itself, or the largest `usize` if it is
/// greater than that.
pub open spec fn capped(count: int) -> usize {
    if count > usize::MAX {
        usize::MAX
    } else {
        count as usize
    }
}

/// The error for a buffer that holds `available` bytes where `required` are
/// needed.
pub open spec fn insufficient(required: int, available: int) -> Error {
    Error::InsufficientSpace { required: capped(required), available: capped(available) }
}

/// What packing a field with encoding `bytes` into `buffer` returns: the
/// number of bytes written, or the error if they do not fit.
pub open spec fn packed_len(buffer: Seq<u8>, bytes: Seq<u8>) -> Result<usize, Error> {
    if bytes.len() <= buffer.len() {
        Ok(bytes.len() as usize)
    } else {
        Err(insufficient(bytes.len() as int, buffer.len() as int))
    }
}

/// The buffer after packing a field with encoding `bytes` into it: the
/// encoding replaces the buffer's first bytes if it fits, and nothing
/// changes if it does not.
pub open spec fn packed(buffer: Seq<u8>, bytes: Seq<u8>) -> Seq<u8> {
    if bytes.len() <= buffer.len() {
        bytes + buffer.skip(bytes.len() as int)
    } else {
        buffer
    }
}

/// What packing a VARBINARY with the given payload into `buffer` returns:
/// the number of bytes written, or the error for a buffer that is too short,
/// or, where the buffer is long enough, the error for a payload that is too
/// long for the length prefix.
pub open spec fn packed_array_len(buffer: Seq<u8>, payload: Seq<u8>) -> Result<usize, Error> {
    if buffer.len() < 4 + payload.len() {
        Err(insufficient((4 + payload.len()) as int, buffer.len() as int))
    } else if !fits_prefix(payload.len()) {
        Err(Error::InvalidEncoding)
    } else {
        Ok((4 + payload.len()) as usize)
    }
}

/// The buffer after packing a VARBINARY with the given payload into it:
/// the encoding replaces the buffer's first bytes if the packing succeeds,
/// and nothing changes if it does not.
pub open spec fn packed_array(buffer: Seq<u8>, payload: Seq<u8>) -> Seq<u8> {
    if packed_array_len(buffer, payload) is Ok {
        varbinary_bytes(payload) + buffer.skip((4 + payload.len()) as int)
    } else {
        buffer
    }
}

/// What unpacking a BOOLEAN from `buffer` returns.
pub open spec fn unpacked_bool(buffer: Seq<u8>) -> Result<bool, Error> {
    if buffer.len() >= 1 {
        Ok(bool_value(buffer))
    } else {
        Err(insufficient(1, buffer.len() as int))
    }
}

/// What unpacking a SMALLINT from `buffer` returns.
pub open spec fn unpacked_smallint(buffer: Seq<u8>) -> Result<i16, Error> {
    if buffer.len() >= 2 {
        Ok(smallint_value(buffer))
    } else {
        Err(insufficient(2, buffer.len() as int))
    }
}

/// What unpacking an INTEGER from `buffer` returns.
pub open spec fn unpacked_int(buffer: Seq<u8>) -> Result<i32, Error> {
    if buffer.len() >= 4 {
        Ok(int_value(buffer))
    } else {
        Err(insufficient(4, buffer.len() as int))
    }
}

/// What unpacking a BIGINT from `buffer` returns.
pub open spec fn unpacked_bigint(buffer: Seq<u8>) -> Result<i64, Error> {
    if buffer.len() >= 8 {
        Ok(bigint_value(buffer))
    } else {
        Err(insufficient(8, buffer.len() as int))
    }
}

/// What unpacking a FLOAT from `buffer` returns, as a bit pattern.
pub open spec fn unpacked_float(buffer: Seq<u8>) -> Result<u64, Error> {
    if buffer.len() >= 8 {
        Ok(float_value(buffer))
    } else {
        Err(insufficient(8, buffer.len() as int))
    }
}

/// What unpacking a VARBINARY from `buffer` returns: the payload, or the
/// error for a buffer too short for the prefix, for a negative prefix, or
/// for a buffer too short for the payload that the prefix announces.
pub open spec fn unpacked_array(buffer: Seq<u8>) -> Result<Seq<u8>, Error> {
    if buffer.len() < 4 {
        Err(insufficient(4, buffer.len() as int))
    } else if int_value(buffer) < 0 {
        Err(Error::InvalidEncoding)
    } else if buffer.len() - 4 < int_value(buffer) {
        Err(insufficient(4 + int_value(buffer), buffer.len() as int))
    } else {
        Ok(buffer.subrange(4, 4 + int_value(buffer)))
    }
}

/// What unpacking a VARCHAR from `buffer` returns: the characters that the
/// payload spells in UTF-8, or the error of the VARBINARY, or the error for
/// a payload that is not UTF-8.
pub open spec fn unpacked_string(buffer: Seq<u8>) -> Result<Seq<char>, Error> {
    match unpacked_array(buffer) {
        Err(e) => Err(e),
        Ok(payload) => if valid_utf8(payload) {
            Ok(decode_utf8(payload))
        } else {
            Err(Error::InvalidEncoding)
        },
    }
}

/// The number that two bytes spell depends on those two bytes alone.
proof fn lemma_value_of_front2(bytes: Seq<u8>, rest: Seq<u8>)
    requires
        bytes.len() == 2,
    ensures
        le_value2(bytes + rest) == le_value2(bytes),
{
    let all = bytes + rest;
    assert(all[0] == bytes[0] && all[1] == bytes[1]);
}

/// The number that four bytes spell depends on those four bytes alone.
proof fn lemma_value_of_front4(bytes: Seq<u8>, rest: Seq<u8>)
    requires
        bytes.len() == 4,
    ensures
        le_value4(bytes + rest) == le_value4(bytes),
{
    let all = bytes + rest;
    assert(all[0] == bytes[0] && all[1] == bytes[1] && all[2] == bytes[2] && all[3] == bytes[3]);
}

/// The number that eight bytes spell depends on those eight bytes alone.
proof fn lemma_value_of_front8(bytes: Seq<u8>, rest: Seq<u8>)
    requires
        bytes.len() == 8,
    ensures
        le_value8(bytes + rest) == le_value8(bytes),
{
    let all = bytes + rest;
    assert(all[0] == bytes[0] && all[1] == bytes[1] && all[2] == bytes[2] && all[3] == bytes[3]);
    assert(all[4] == bytes[4] && all[5] == bytes[5] && all[6] == bytes[6] && all[7] == bytes[7]);
}

/// The two low bytes of a number spell its remainder modulo 2^16.
proof fn lemma_value_of_bytes2(v: int)
    ensures
        le_value2(le_bytes2(v)) == v % 0x1_0000,
{
}

/// The four low bytes of a number spell its remainder modulo 2^32.
proof fn lemma_value_of_bytes4(v: int)
    ensures
        le_value4(le_bytes4(v)) == v % 0x1_0000_0000,
{
}

/// The eight low bytes of a signed 64-bit number spell the number, or, if
/// it is negative, the number plus 2^64.
proof fn lemma_value_of_bytes_i64(v: i64)
    ensures
        le_value8(le_bytes8(v as int)) == if v >= 0 {
            v as int
        } else {
            v + 0x1_0000_0000_0000_0000
        },
{
    assert(((v as int % 0x100) as u8) + 0x100 * ((v as int / 0x100 % 0x100) as u8) + 0x1_0000 * ((v
        as int / 0x1_0000 % 0x100) as u8) + 0x100_0000 * ((v as int / 0x100_0000 % 0x100) as u8)
        + 0x1_0000_0000 * ((v as int / 0x1_0000_0000 % 0x100) as u8) + 0x100_0000_0000 * ((v
        as int / 0x100_0000_0000 % 0x100) as u8) + 0x1_0000_0000_0000 * ((v as int
        / 0x1_0000_0000_0000 % 0x100) as u8) + 0x100_0000_0000_0000 * ((v as int
        / 0x100_0000_0000_0000 % 0x100) as u8) == (if v >= 0 {
        v as int
    } else {
        v + 0x1_0000_0000_0000_0000
    })) by (bit_vector);
}

/// The eight low bytes of an unsigned 64-bit number spell the number.
proof fn lemma_value_of_bytes_u64(v: u64)
    ensures
        le_value8(le_bytes8(v as int)) == v,
{
    assert(((v as int % 0x100) as u8) + 0x100 * ((v as int / 0x100 % 0x100) as u8) + 0x1_0000 * ((v
        as int / 0x1_0000 % 0x100) as u8) + 0x100_0000 * ((v as int / 0x100_0000 % 0x100) as u8)
        + 0x1_0000_0000 * ((v as int / 0x1_0000_0000 % 0x100) as u8) + 0x100_0000_0000 * ((v
        as int / 0x100_0000_0000 % 0x100) as u8) + 0x1_0000_0000_0000 * ((v as int
        / 0x1_0000_0000_0000 % 0x100) as u8) + 0x100_0000_0000_0000 * ((v as int
        / 0x100_0000_0000_0000 % 0x100) as u8) == v) by (bit_vector);
}

/// A BOOLEAN that was packed is unpacked again, whatever follows it.
pub proof fn lemma_bool_roundtrip(v: bool, buffer: Seq<u8>)
    ensures
        unpacked_bool(bool_bytes(v) + buffer) == Ok::<bool, Error>(v),
        packed_len(buffer, bool_bytes(v)) is Ok ==> unpacked_bool(packed(buffer, bool_bytes(v)))
            == Ok::<bool, Error>(v),
{
}

/// A SMALLINT that was packed is unpacked again, whatever follows it.
pub proof fn lemma_smallint_roundtrip(v: i16, buffer: Seq<u8>)
    ensures
        unpacked_smallint(smallint_bytes(v) + buffer) == Ok::<i16, Error>(v),
        packed_len(buffer, smallint_bytes(v)) is Ok ==> unpacked_smallint(
            packed(buffer, smallint_bytes(v)),
        ) == Ok::<i16, Error>(v),
{
    lemma_value_of_bytes2(v as int);
    lemma_value_of_front2(smallint_bytes(v), buffer);
    lemma_value_of_front2(smallint_bytes(v), buffer.skip(2));
}

/// An INTEGER that was packed is unpacked again, whatever follows it.
pub proof fn lemma_int_roundtrip(v: i32, buffer: Seq<u8>)
    ensures
        unpacked_int(int_bytes(v) + buffer) == Ok::<i32, Error>(v),
        packed_len(buffer, int_bytes(v)) is Ok ==> unpacked_int(packed(buffer, int_bytes(v)))
            == Ok::<i32, Error>(v),
{
    lemma_value_of_bytes4(v as int);
    lemma_value_of_front4(int_bytes(v), buffer);
    lemma_value_of_front4(int_bytes(v), buffer.skip(4));
}

/// A BIGINT that was packed is unpacked again, whatever follows it.
pub proof fn lemma_bigint_roundtrip(v: i64, buffer: Seq<u8>)
    ensures
        unpacked_bigint(bigint_bytes(v) + buffer) == Ok::<i64, Error>(v),
        packed_len(buffer, bigint_bytes(v)) is Ok ==> unpacked_bigint(
            packed(buffer, bigint_bytes(v)),
        ) == Ok::<i64, Error>(v),
{
    lemma_value_of_bytes_i64(v);
    lemma_value_of_front8(bigint_bytes(v), buffer);
    lemma_value_of_front8(bigint_bytes(v), buffer.skip(8));
}

/// A FLOAT that was packed is unpacked again, bit for bit, whatever follows
/// it.
pub proof fn lemma_float_roundtrip(bits: u64, buffer: Seq<u8>)
    ensures
        unpacked_float(float_bytes(bits) + buffer) == Ok::<u64, Error>(bits),
        packed_len(buffer, float_bytes(bits)) is Ok ==> unpacked_float(
            packed(buffer, float_bytes(bits)),
        ) == Ok::<u64, Error>(bits),
{
    lemma_value_of_bytes_u64(bits);
    lemma_value_of_front8(float_bytes(bits), buffer);
    lemma_value_of_front8(float_bytes(bits), buffer.skip(8));
}

/// A VARBINARY that was packed is unpacked again, whatever follows it.
pub proof fn lemma_array_roundtrip(payload: Seq<u8>, buffer: Seq<u8>)
    requires
        fits_prefix(payload.len()),
    ensures
        unpacked_array(varbinary_bytes(payload) + buffer) == Ok::<Seq<u8>, Error>(payload),
        packed_array_len(buffer, payload) is Ok ==> unpacked_array(packed_array(buffer, payload))
            == Ok::<Seq<u8>, Error>(payload),
{
    lemma_int_roundtrip(payload.len() as i32, payload + buffer);
    let encoded = varbinary_bytes(payload) + buffer;
    assert(encoded =~= int_bytes(payload.len() as i32) + (payload + buffer));
    assert(encoded.subrange(4, (4 + payload.len()) as int) =~= payload);
    if packed_array_len(buffer, payload) is Ok {
        let rest = buffer.skip((4 + payload.len()) as int);
        lemma_int_roundtrip(payload.len() as i32, payload + rest);
        let left = packed_array(buffer, payload);
        assert(left =~= int_bytes(payload.len() as i32) + (payload + rest));
        assert(left.subrange(4, (4 + payload.len()) as int) =~= payload);
    }
}

/// A VARCHAR that was packed is unpacked again, character for character,
/// whatever follows it.
pub proof fn lemma_string_roundtrip(chars: Seq<char>, buffer: Seq<u8>)
    requires
        fits_prefix(encode_utf8(chars).len()),
    ensures
        unpacked_string(varchar_bytes(chars) + buffer) == Ok::<Seq<char>, Error>(chars),
        packed_array_len(buffer, encode_utf8(chars)) is Ok ==> unpacked_string(
            packed_array(buffer, encode_utf8(chars)),
        ) == Ok::<Seq<char>, Error>(chars),
{
    lemma_array_roundtrip(encode_utf8(chars), buffer);
    encode_utf8_valid_utf8(chars);
    encode_utf8_decode_utf8(chars);
}

} // verus!
