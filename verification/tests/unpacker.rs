use dbcore::error::Error;
use dbcore::protocol::pack::{
    pack_array, pack_bigint, pack_bool, pack_float, pack_int, pack_smallint, pack_string,
};
use dbcore::protocol::unpacker::{
    unpack_array, unpack_bigint, unpack_bool, unpack_float, unpack_int, unpack_smallint,
    unpack_string,
};

#[test]
fn test_unpack_int_success() {
    let array: [u8; 4] = [0x11, 0x22, 0x33, 0x44];
    let res: i32 = unpack_int(&array).unwrap();
    assert_eq!(res, 1144201745);
}

#[test]
#[should_panic]
fn test_unpack_int_fail() {
    let array: [u8; 3] = [0; 3];
    unpack_int(&array).unwrap();
}

#[test]
fn test_unpack_smallint_success() {
    let array: [u8; 2] = [0x11, 0x22];
    let res: i16 = unpack_smallint(&array).unwrap();
    assert_eq!(res, 8721);
}

#[test]
#[should_panic]
fn test_unpack_smallint_fail() {
    let array: [u8; 1] = [0; 1];
    unpack_smallint(&array).unwrap();
}

#[test]
fn test_unpack_bigint_success() {
    let array: [u8; 8] = [0x11, 0x22, 0x33, 0x44, 0x55, 0x66, 0x77, 0x88];
    let res: i64 = unpack_bigint(&array).unwrap();
    assert_eq!(res, -8613303245920329199);
}

#[test]
#[should_panic]
fn test_unpack_bigint_fail() {
    let array: [u8; 7] = [0; 7];
    unpack_bigint(&array).unwrap();
}

#[test]
fn test_unpack_float_success() {
    let array: [u8; 8] = [0x00, 0x00, 0x00, 0x00, 0x00, 0x00, 0xE0, 0x3F];
    let res: f64 = f64::from_bits(unpack_float(&array).unwrap());
    assert_eq!(res, 0.5);
}

#[test]
#[should_panic]
fn test_unpack_float_fail() {
    let array: [u8; 7] = [0; 7];
    unpack_float(&array).unwrap();
}

#[test]
fn test_unpack_bool_success() {
    let array: [u8; 1] = [0x01];
    let res: bool = unpack_bool(&array).unwrap();
    assert_eq!(res, true);
}

#[test]
#[should_panic]
fn test_unpack_bool_fail() {
    let array: [u8; 0] = [0; 0];
    unpack_bool(&array).unwrap();
}

#[test]
fn test_unpack_string_success() {
    let array: [u8; 8] = [4, 0, 0, 0, 240, 159, 146, 150];
    let res = unpack_string(&array).unwrap();
    assert_eq!(res, "\u{1F496}");
    // The payload is one character in UTF-8, not four single-byte ones.
    assert_ne!(res, "ðŸ’–");
}

#[test]
#[should_panic]
fn test_unpack_string_fail_on_length() {
    let array: [u8; 3] = [0; 3];
    unpack_string(&array).unwrap();
}

#[test]
#[should_panic]
fn test_unpack_string_fail_on_string() {
    let array: [u8; 7] = [4, 0, 0, 0, 0, 0, 0];
    unpack_string(&array).unwrap();
}

#[test]
fn test_unpack_array_success() {
    let array: [u8; 8] = [4, 0, 0, 0, 11, 22, 33, 44];
    let res: &[u8] = unpack_array(&array).unwrap();

    assert_eq!(&array[4..], res, "rest len = {}", res.len())
}

#[test]
#[should_panic]
fn test_unpack_array_fail_on_size() {
    let array: [u8; 3] = [0, 0, 0];

    unpack_array(&array).unwrap();
}

#[test]
#[should_panic]
fn test_unpack_array_fail_on_array() {
    let array: [u8; 7] = [4, 0, 0, 0, 0, 0, 0];

    unpack_array(&array).unwrap();
}

#[test]
fn unpack_reads_only_the_front() {
    let array: [u8; 9] = [0xFE, 0xFF, 0xFF, 0xFF, 0xFF, 0xFF, 0xFF, 0xFF, 0x55];
    assert_eq!(unpack_bool(&array), Ok(true));
    assert_eq!(unpack_smallint(&array), Ok(-2));
    assert_eq!(unpack_int(&array), Ok(-2));
    assert_eq!(unpack_bigint(&array), Ok(-2));
    assert_eq!(unpack_float(&array), Ok(0xFFFF_FFFF_FFFF_FFFE));
}

#[test]
fn unpack_bool_takes_any_nonzero_byte_for_true() {
    assert_eq!(unpack_bool(&[0]), Ok(false));
    assert_eq!(unpack_bool(&[1]), Ok(true));
    assert_eq!(unpack_bool(&[2]), Ok(true));
    assert_eq!(unpack_bool(&[255]), Ok(true));
}

#[test]
fn unpack_int_extremes() {
    assert_eq!(unpack_int(&[0xFF, 0xFF, 0xFF, 0x7F]), Ok(i32::MAX));
    assert_eq!(unpack_int(&[0x00, 0x00, 0x00, 0x80]), Ok(i32::MIN));
    assert_eq!(unpack_smallint(&[0xFF, 0x7F]), Ok(i16::MAX));
    assert_eq!(unpack_smallint(&[0x00, 0x80]), Ok(i16::MIN));
    assert_eq!(unpack_bigint(&[0xFF, 0xFF, 0xFF, 0xFF, 0xFF, 0xFF, 0xFF, 0x7F]), Ok(i64::MAX));
    assert_eq!(unpack_bigint(&[0, 0, 0, 0, 0, 0, 0, 0x80]), Ok(i64::MIN));
}

#[test]
fn unpack_reports_required_and_available() {
    assert_eq!(
        unpack_bool(&[]),
        Err(Error::InsufficientSpace { required: 1, available: 0 })
    );
    assert_eq!(
        unpack_smallint(&[1]),
        Err(Error::InsufficientSpace { required: 2, available: 1 })
    );
    assert_eq!(
        unpack_int(&[1, 2, 3]),
        Err(Error::InsufficientSpace { required: 4, available: 3 })
    );
    assert_eq!(
        unpack_bigint(&[1, 2, 3, 4, 5, 6, 7]),
        Err(Error::InsufficientSpace { required: 8, available: 7 })
    );
    assert_eq!(
        unpack_float(&[1, 2, 3, 4, 5, 6, 7]),
        Err(Error::InsufficientSpace { required: 8, available: 7 })
    );
    assert_eq!(
        unpack_array(&[0, 0, 0]),
        Err(Error::InsufficientSpace { required: 4, available: 3 })
    );
    assert_eq!(
        unpack_array(&[4, 0, 0, 0, 0, 0, 0]),
        Err(Error::InsufficientSpace { required: 8, available: 7 })
    );
    assert_eq!(
        unpack_string(&[0, 0, 0]),
        Err(Error::InsufficientSpace { required: 4, available: 3 })
    );
    assert_eq!(
        unpack_string(&[4, 0, 0, 0, 0, 0, 0]),
        Err(Error::InsufficientSpace { required: 8, available: 7 })
    );
}

#[test]
fn unpack_string_rejects_bytes_that_are_not_utf8() {
    assert_eq!(unpack_string(&[2, 0, 0, 0, 0xC3, 0x28]), Err(Error::InvalidEncoding));
    assert_eq!(unpack_string(&[1, 0, 0, 0, 0xFF]), Err(Error::InvalidEncoding));
    assert_eq!(unpack_string(&[3, 0, 0, 0, 240, 159, 146]), Err(Error::InvalidEncoding));
    assert_eq!(unpack_array(&[2, 0, 0, 0, 0xC3, 0x28]).unwrap(), &[0xC3, 0x28]);
}

#[test]
fn unpack_string_returns_the_payload_as_text() {
    assert_eq!(unpack_string(&[2, 0, 0, 0, b'h', b'i', b'!']), Ok("hi"));
    assert_eq!(unpack_string(&[0, 0, 0, 0]), Ok(""));
    assert_eq!(unpack_string(&[2, 0, 0, 0, 0xC3, 0xA9]), Ok("\u{e9}"));
}

#[test]
fn unpack_rejects_a_negative_length() {
    assert_eq!(unpack_array(&[0xFF, 0xFF, 0xFF, 0xFF, 1, 2]), Err(Error::InvalidEncoding));
    assert_eq!(unpack_string(&[0x00, 0x00, 0x00, 0x80, 1, 2]), Err(Error::InvalidEncoding));
}

#[test]
fn unpack_array_with_empty_payload() {
    let array: [u8; 5] = [0, 0, 0, 0, 9];
    let empty: &[u8] = &[];
    assert_eq!(unpack_array(&array).unwrap(), empty);
}

#[test]
fn packed_values_unpack_to_themselves() {
    let mut buffer: [u8; 32] = [0x5A; 32];
    for v in [0i32, 1, -1, 42, i32::MAX, i32::MIN, 2093608745, -1294] {
        pack_int(&mut buffer, v).unwrap();
        assert_eq!(unpack_int(&buffer), Ok(v));
    }
    for v in [0i16, 1, -1, 11, i16::MAX, i16::MIN, -1294] {
        pack_smallint(&mut buffer, v).unwrap();
        assert_eq!(unpack_smallint(&buffer), Ok(v));
    }
    for v in [0i64, 1, -1, i64::MAX, i64::MIN, -1294, 1 << 40] {
        pack_bigint(&mut buffer, v).unwrap();
        assert_eq!(unpack_bigint(&buffer), Ok(v));
    }
    for v in [true, false] {
        pack_bool(&mut buffer, v).unwrap();
        assert_eq!(unpack_bool(&buffer), Ok(v));
    }
    let payload: [u8; 5] = [1, 2, 3, 4, 5];
    pack_array(&mut buffer, &payload).unwrap();
    assert_eq!(unpack_array(&buffer).unwrap(), &payload);
    for text in ["", "test", "\u{1F496}", "na\u{ef}ve \u{4e16}\u{754c}"] {
        assert_eq!(pack_string(&mut buffer, text), Ok(4 + text.len()));
        assert_eq!(unpack_string(&buffer), Ok(text));
    }
}

#[test]
fn packed_floats_unpack_bit_for_bit() {
    let mut buffer: [u8; 8] = [0; 8];
    for v in [0.0f64, -0.0, 0.5, 42.02, -1294.05, f64::MAX, f64::MIN_POSITIVE, f64::INFINITY] {
        pack_float(&mut buffer, v.to_bits()).unwrap();
        let back = f64::from_bits(unpack_float(&buffer).unwrap());
        assert_eq!(back.to_bits(), v.to_bits());
        assert_eq!(back, v);
    }
    pack_float(&mut buffer, f64::NAN.to_bits()).unwrap();
    assert_eq!(unpack_float(&buffer), Ok(f64::NAN.to_bits()));
    pack_float(&mut buffer, 0x7FF8_0000_0000_1234).unwrap();
    assert_eq!(unpack_float(&buffer), Ok(0x7FF8_0000_0000_1234));
}

#[test]
fn varchar_roundtrip_of_a_four_byte_character() {
    let text = "\u{1F496}";
    let mut buffer: [u8; 8] = [0; 8];
    assert_eq!(pack_string(&mut buffer, text), Ok(8));
    assert_eq!(&buffer[..4], &[4, 0, 0, 0]);
    assert_eq!(&buffer[4..], text.as_bytes());
    assert_eq!(unpack_string(&buffer), Ok(text));
}
