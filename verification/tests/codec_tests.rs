use byteorder::ByteOrder;
use fmmap::codec::{decode_be, decode_le, encode_be, encode_le};

#[test]
fn encode_be_exact_bytes() {
    let bytes = encode_be(0xDEAD_BEEF, 4);
    assert_eq!(bytes, vec![0xDE, 0xAD, 0xBE, 0xEF]);
}

#[test]
fn encode_le_exact_bytes() {
    let bytes = encode_le(0xDEAD_BEEF, 4);
    assert_eq!(bytes, vec![0xEF, 0xBE, 0xAD, 0xDE]);
}

#[test]
fn encode_truncates_to_width() {
    // Only the low two bytes of the value are kept for a two-byte encoding.
    let bytes = encode_be(0x0102_0304, 2);
    assert_eq!(bytes, vec![0x03, 0x04]);
}

#[test]
fn decode_be_exact_value() {
    let v = decode_be(&vec![0x12, 0x34, 0x56, 0x78]);
    assert_eq!(v, 0x1234_5678);
}

#[test]
fn decode_le_exact_value() {
    let v = decode_le(&vec![0x78, 0x56, 0x34, 0x12]);
    assert_eq!(v, 0x1234_5678);
}

#[test]
fn zero_width_encoding_is_empty() {
    assert_eq!(encode_be(7, 0), Vec::<u8>::new());
    assert_eq!(encode_le(7, 0), Vec::<u8>::new());
    assert_eq!(decode_be(&Vec::new()), 0);
    assert_eq!(decode_le(&Vec::new()), 0);
}

#[test]
fn u128_extremes_round_trip() {
    for v in [0u128, 1, u128::MAX - 1, u128::MAX] {
        assert_eq!(decode_be(&encode_be(v, 16)), v);
        assert_eq!(decode_le(&encode_le(v, 16)), v);
    }
}

#[test]
fn all_widths_round_trip() {
    for n in 0..=16usize {
        let v: u128 = if n == 0 { 0 } else { (1u128 << (8 * (n as u32) - 1)) | 0x55 };
        assert_eq!(decode_be(&encode_be(v, n)), v, "width {}", n);
        assert_eq!(decode_le(&encode_le(v, n)), v, "width {}", n);
    }
}

#[test]
fn big_endian_matches_byteorder() {
    let v: u64 = 0x0102_0304_0506_0708;
    let mut reference = [0u8; 8];
    byteorder::BigEndian::write_u64(&mut reference, v);
    assert_eq!(encode_be(v as u128, 8), reference.to_vec());
    assert_eq!(decode_be(&reference.to_vec()), v as u128);
}

#[test]
fn little_endian_matches_byteorder() {
    let v: u64 = 0x0102_0304_0506_0708;
    let mut reference = [0u8; 8];
    byteorder::LittleEndian::write_u64(&mut reference, v);
    assert_eq!(encode_le(v as u128, 8), reference.to_vec());
    assert_eq!(decode_le(&reference.to_vec()), v as u128);
}

#[test]
fn signed_big_endian_matches_byteorder() {
    let v: i32 = -123_456_789;
    let mut reference = [0u8; 4];
    byteorder::BigEndian::write_i32(&mut reference, v);
    assert_eq!(encode_be((v as u32) as u128, 4), reference.to_vec());
}
