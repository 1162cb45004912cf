use cdis_assemble::constants::{SIX_BITS, SIXTEEN_BITS};
use cdis_assemble::writing::{create_bit_buffer, write_integer_bits, write_signed_bits, BitBuffer};

#[test]
fn write_value_unsigned_zero() {
    let mut buf: BitBuffer = create_bit_buffer();

    let cursor = write_integer_bits(&mut buf, 0, SIX_BITS, 0x00u8 as u64);
    assert_eq!(cursor, 6);
    assert_eq!(buf.as_raw_slice()[0], 0x00);
}

#[test]
fn write_value_unsigned_positive() {
    let mut buf: BitBuffer = create_bit_buffer();

    let cursor = write_integer_bits(&mut buf, 0, SIX_BITS, 15u8 as u64);
    assert_eq!(cursor, 6);
    assert_eq!(buf.as_raw_slice()[0], 0x3C);
}

#[test]
fn write_value_signed_negative() {
    let mut buf: BitBuffer = create_bit_buffer();

    let cursor = write_signed_bits(&mut buf, 0, SIXTEEN_BITS, -32768);
    assert_eq!(cursor, 16);
    assert_eq!(buf.as_raw_slice()[0..2], [0x80, 0x00]);
}

#[test]
fn write_value_signed_zero() {
    let mut buf: BitBuffer = create_bit_buffer();

    let cursor = write_signed_bits(&mut buf, 0, SIXTEEN_BITS, 0);
    assert_eq!(cursor, 16);
    assert_eq!(buf.as_raw_slice()[0..2], [0x00, 0x00]);
}

#[test]
fn write_value_signed_negative_positive() {
    let mut buf: BitBuffer = create_bit_buffer();

    let cursor = write_signed_bits(&mut buf, 0, SIXTEEN_BITS, 32767);
    assert_eq!(cursor, 16);
    assert_eq!(buf.as_raw_slice()[0..2], [0x7F, 0xFF]);
}

#[test]
fn write_value_signed_full_bit_size() {
    let mut buf: BitBuffer = create_bit_buffer();

    let cursor = write_signed_bits(&mut buf, 0, SIXTEEN_BITS, -1);
    assert_eq!(cursor, 16);
    assert_eq!(buf.as_raw_slice()[0..2], [0xFF, 0xFF]);
}

#[test]
fn new_buffer_is_zeroed() {
    let buf = create_bit_buffer();
    assert_eq!(buf.as_raw_slice().len(), cdis_assemble::constants::MTU_BITS);
    assert!(buf.as_raw_slice().iter().all(|b| *b == 0));
}

#[test]
fn write_across_octet_boundary_keeps_other_bits() {
    let mut buf = create_bit_buffer();
    let cursor = write_integer_bits(&mut buf, 0, 8, 0xFF);
    let cursor = write_integer_bits(&mut buf, cursor, 8, 0xFF);
    assert_eq!(cursor, 16);
    // Overwrite bits 4..12 with 0b0101_1010; bits 0..4 and 12..16 stay set.
    let cursor = write_integer_bits(&mut buf, 4, 8, 0x5A);
    assert_eq!(cursor, 12);
    assert_eq!(buf.as_raw_slice()[0..3], [0xF5, 0xAF, 0x00]);
}

#[test]
fn write_truncates_to_the_low_bits() {
    let mut buf = create_bit_buffer();
    let cursor = write_integer_bits(&mut buf, 0, 4, 0x1F3);
    assert_eq!(cursor, 4);
    assert_eq!(buf.as_raw_slice()[0], 0x30);
}

#[test]
fn write_signed_in_odd_width() {
    let mut buf = create_bit_buffer();
    let cursor = write_signed_bits(&mut buf, 3, 9, -2);
    assert_eq!(cursor, 12);
    // bits 3..12 hold 1_1111_1110
    assert_eq!(buf.as_raw_slice()[0..2], [0x1F, 0xE0]);
}

#[test]
fn write_full_64_bits() {
    let mut buf = create_bit_buffer();
    let cursor = write_integer_bits(&mut buf, 8, 64, 0x0102_0304_0506_0708);
    assert_eq!(cursor, 72);
    assert_eq!(buf.as_raw_slice()[0..10], [0, 1, 2, 3, 4, 5, 6, 7, 8, 0]);
}
