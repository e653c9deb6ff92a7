use dbcore::error::Error;
use dbcore::protocol::pack::{
    copy_array, pack_array, pack_bigint, pack_bool, pack_float, pack_int, pack_smallint,
    pack_string, pack_unsigned,
};

#[test]
fn it_works() {}

#[test]
fn pack_test_pack_int_success() {
    let mut array: [u8; 4] = [0; 4];
    assert_eq!(4, pack_int(&mut array, 42).unwrap());
}

#[test]
#[should_panic]
fn pack_test_pack_int_fail() {
    let mut array: [u8; 3] = [0; 3];
    pack_int(&mut array, 42).unwrap();
}

#[test]
fn pack_test_pack_smallint_success() {
    let mut array: [u8; 2] = [0; 2];
    assert_eq!(2, pack_smallint(&mut array, 42).unwrap());
}

#[test]
#[should_panic]
fn pack_test_pack_smallint_fail() {
    let mut array: [u8; 1] = [0; 1];
    pack_smallint(&mut array, 42).unwrap();
}

#[test]
fn pack_test_pack_bigint_success() {
    let mut array: [u8; 8] = [0; 8];
    assert_eq!(8, pack_bigint(&mut array, 42).unwrap());
}

#[test]
#[should_panic]
fn pack_test_pack_bigint_fail() {
    let mut array: [u8; 7] = [0; 7];
    pack_bigint(&mut array, 42).unwrap();
}

#[test]
fn pack_test_pack_float_success() {
    let mut array: [u8; 8] = [0; 8];
    assert_eq!(8, pack_float(&mut array, 42.02f64.to_bits()).unwrap());
}

#[test]
#[should_panic]
fn pack_test_pack_float_fail() {
    let mut array: [u8; 7] = [0; 7];
    pack_float(&mut array, 42.02f64.to_bits()).unwrap();
}

#[test]
fn pack_test_pack_bool_success() {
    let mut array: [u8; 1] = [0; 1];
    assert_eq!(1, pack_bool(&mut array, true).unwrap());
}

#[test]
#[should_panic]
fn pack_test_pack_bool_fail() {
    let mut array: [u8; 0] = [0; 0];
    pack_bool(&mut array, true).unwrap();
}

#[test]
fn test_pack_unsigned_success() {
    let mut array: [u8; 4] = [0; 4];
    assert_eq!(4, pack_unsigned(&mut array, 42).unwrap());
}

#[test]
#[should_panic]
fn test_pack_unsigned_fail() {
    let mut array: [u8; 3] = [0; 3];
    pack_unsigned(&mut array, 42).unwrap();
}

#[test]
fn pack_test_pack_string_success() {
    let mut array: [u8; 8] = [0; 8];
    let test = "test";
    assert_eq!(4 + test.len(), pack_string(&mut array, &test).unwrap());
}

#[test]
#[should_panic]
fn pack_test_pack_string_fail() {
    let mut array: [u8; 7] = [0; 7];
    pack_string(&mut array, "test").unwrap();
}

#[test]
fn test_copy_array_success() {
    let mut dst: [u8; 8] = [0; 8];
    let src: [u8; 8] = [0; 8];
    copy_array(&mut dst, &src).unwrap();
}

#[test]
#[should_panic]
fn test_copy_array_fail() {
    let mut dst: [u8; 1] = [0; 1];
    let src: [u8; 8] = [0; 8];
    copy_array(&mut dst, &src).unwrap();
}

#[test]
fn pack_test_pack_array_success() {
    let mut array: [u8; 8] = [0; 8];
    let test: [u8; 4] = [1; 4];

    assert_eq!(4 + test.len(), pack_array(&mut array, &test).unwrap());
}

#[test]
#[should_panic]
fn pack_test_pack_array_fail() {
    let mut array: [u8; 7] = [0; 7];
    let test: [u8; 4] = [1; 4];

    pack_array(&mut array, &test).unwrap();
}

#[test]
fn packer_test_pack_int_success() {
    let mut array: [u8; 4] = [0; 4];
    pack_int(&mut array, 42).unwrap();
}

#[test]
#[should_panic]
fn packer_test_pack_int_fail() {
    let mut array: [u8; 3] = [0; 3];
    pack_int(&mut array, 42).unwrap();
}

#[test]
fn packer_test_pack_smallint_success() {
    let mut array: [u8; 2] = [0; 2];
    pack_smallint(&mut array, 42).unwrap();
}

#[test]
#[should_panic]
fn packer_test_pack_smallint_fail() {
    let mut array: [u8; 1] = [0; 1];
    pack_smallint(&mut array, 42).unwrap();
}

#[test]
fn packer_test_pack_bigint_success() {
    let mut array: [u8; 8] = [0; 8];
    pack_bigint(&mut array, 42).unwrap();
}

#[test]
#[should_panic]
fn packer_test_pack_bigint_fail() {
    let mut array: [u8; 7] = [0; 7];
    pack_bigint(&mut array, 42).unwrap();
}

#[test]
fn packer_test_pack_float_success() {
    let mut array: [u8; 8] = [0; 8];
    pack_float(&mut array, 42.02f64.to_bits()).unwrap();
}

#[test]
#[should_panic]
fn packer_test_pack_float_fail() {
    let mut array: [u8; 7] = [0; 7];
    pack_float(&mut array, 42.02f64.to_bits()).unwrap();
}

#[test]
fn packer_test_pack_bool_success() {
    let mut array: [u8; 1] = [0; 1];
    pack_bool(&mut array, true).unwrap();
}

#[test]
#[should_panic]
fn packer_test_pack_bool_fail() {
    let mut array: [u8; 0] = [0; 0];
    pack_bool(&mut array, true).unwrap();
}

#[test]
fn packer_test_pack_string_success() {
    let mut array: [u8; 8] = [0; 8];
    pack_string(&mut array, "test").unwrap();
}

#[test]
#[should_panic]
fn packer_test_pack_string_fail() {
    let mut array: [u8; 7] = [0; 7];
    pack_string(&mut array, "test").unwrap();
}

#[test]
fn packer_test_pack_array_success() {
    let mut array: [u8; 8] = [0; 8];
    let test: [u8; 4] = [1; 4];

    pack_array(&mut array, &test).unwrap();
}

#[test]
#[should_panic]
fn packer_test_pack_array_fail() {
    let mut array: [u8; 7] = [0; 7];
    let test: [u8; 4] = [1; 4];

    pack_array(&mut array, &test).unwrap();
}

#[test]
fn pack_int_writes_little_endian_bytes() {
    let mut array: [u8; 6] = [0xAA; 6];
    assert_eq!(pack_int(&mut array, 0x11223344), Ok(4));
    assert_eq!(array, [0x44, 0x33, 0x22, 0x11, 0xAA, 0xAA]);
    assert_eq!(pack_int(&mut array, -2), Ok(4));
    assert_eq!(array, [0xFE, 0xFF, 0xFF, 0xFF, 0xAA, 0xAA]);
    assert_eq!(pack_int(&mut array, i32::MIN), Ok(4));
    assert_eq!(array, [0x00, 0x00, 0x00, 0x80, 0xAA, 0xAA]);
}

#[test]
fn pack_smallint_writes_little_endian_bytes() {
    let mut array: [u8; 3] = [0xAA; 3];
    assert_eq!(pack_smallint(&mut array, 0x1122), Ok(2));
    assert_eq!(array, [0x22, 0x11, 0xAA]);
    assert_eq!(pack_smallint(&mut array, -1294), Ok(2));
    assert_eq!(array, [0xF2, 0xFA, 0xAA]);
}

#[test]
fn pack_bigint_writes_little_endian_bytes() {
    let mut array: [u8; 9] = [0xAA; 9];
    assert_eq!(pack_bigint(&mut array, 0x1122334455667788), Ok(8));
    assert_eq!(array, [0x88, 0x77, 0x66, 0x55, 0x44, 0x33, 0x22, 0x11, 0xAA]);
    assert_eq!(pack_bigint(&mut array, -8613303245920329199), Ok(8));
    assert_eq!(array, [0x11, 0x22, 0x33, 0x44, 0x55, 0x66, 0x77, 0x88, 0xAA]);
}

#[test]
fn pack_float_writes_the_bit_pattern() {
    let mut array: [u8; 8] = [0xAA; 8];
    assert_eq!(pack_float(&mut array, 0.5f64.to_bits()), Ok(8));
    assert_eq!(array, [0x00, 0x00, 0x00, 0x00, 0x00, 0x00, 0xE0, 0x3F]);
    assert_eq!(array, 0.5f64.to_le_bytes());
}

#[test]
fn pack_bool_writes_one_or_zero() {
    let mut array: [u8; 2] = [0xAA; 2];
    assert_eq!(pack_bool(&mut array, true), Ok(1));
    assert_eq!(array, [1, 0xAA]);
    assert_eq!(pack_bool(&mut array, false), Ok(1));
    assert_eq!(array, [0, 0xAA]);
}

#[test]
fn pack_unsigned_writes_little_endian_bytes() {
    let mut array: [u8; 4] = [0xAA; 4];
    assert_eq!(pack_unsigned(&mut array, 0xFFEEDDCC), Ok(4));
    assert_eq!(array, [0xCC, 0xDD, 0xEE, 0xFF]);
}

#[test]
fn pack_array_writes_prefix_and_payload() {
    let mut array: [u8; 8] = [0xAA; 8];
    assert_eq!(pack_array(&mut array, &[7, 8, 9]), Ok(7));
    assert_eq!(array, [3, 0, 0, 0, 7, 8, 9, 0xAA]);
    let mut only_prefix: [u8; 4] = [0xAA; 4];
    assert_eq!(pack_array(&mut only_prefix, &[]), Ok(4));
    assert_eq!(only_prefix, [0, 0, 0, 0]);
}

#[test]
fn pack_string_prefix_counts_bytes_not_characters() {
    let mut array: [u8; 10] = [0xAA; 10];
    let text = "\u{1F496}";
    assert_eq!(text.chars().count(), 1);
    assert_eq!(pack_string(&mut array, text), Ok(8));
    assert_eq!(array, [4, 0, 0, 0, 240, 159, 146, 150, 0xAA, 0xAA]);
}

#[test]
fn copy_array_overwrites_the_front() {
    let mut dst: [u8; 5] = [9; 5];
    assert_eq!(copy_array(&mut dst, &[1, 2, 3]), Ok(()));
    assert_eq!(dst, [1, 2, 3, 9, 9]);
}

#[test]
fn pack_reports_required_and_available() {
    let mut three: [u8; 3] = [5; 3];
    assert_eq!(
        pack_int(&mut three, 42),
        Err(Error::InsufficientSpace { required: 4, available: 3 })
    );
    assert_eq!(
        pack_unsigned(&mut three, 42),
        Err(Error::InsufficientSpace { required: 4, available: 3 })
    );
    assert_eq!(
        pack_bigint(&mut three, 42),
        Err(Error::InsufficientSpace { required: 8, available: 3 })
    );
    assert_eq!(
        pack_float(&mut three, 1),
        Err(Error::InsufficientSpace { required: 8, available: 3 })
    );
    assert_eq!(
        pack_array(&mut three, &[1, 2]),
        Err(Error::InsufficientSpace { required: 6, available: 3 })
    );
    assert_eq!(
        pack_string(&mut three, "ab"),
        Err(Error::InsufficientSpace { required: 6, available: 3 })
    );
    assert_eq!(
        copy_array(&mut three, &[1, 2, 3, 4]),
        Err(Error::InsufficientSpace { required: 4, available: 3 })
    );
    let mut one: [u8; 1] = [5; 1];
    assert_eq!(
        pack_smallint(&mut one, 42),
        Err(Error::InsufficientSpace { required: 2, available: 1 })
    );
    let mut none: [u8; 0] = [];
    assert_eq!(
        pack_bool(&mut none, true),
        Err(Error::InsufficientSpace { required: 1, available: 0 })
    );
    assert_eq!(three, [5, 5, 5]);
    assert_eq!(one, [5]);
}

#[test]
fn pack_array_that_does_not_fit_writes_nothing() {
    let mut array: [u8; 6] = [0xAA; 6];
    assert_eq!(
        pack_array(&mut array, &[1, 2, 3]),
        Err(Error::InsufficientSpace { required: 7, available: 6 })
    );
    assert_eq!(array, [0xAA; 6]);
}
