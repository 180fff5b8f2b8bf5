use pe_editor::helpers::{from_bytes, read_n_bytes_le, to_bytes, BytesConversion};
use pe_editor::types::Byte;

#[test]
fn to_bytes_u8() {
    let x: u8 = 0x3a;
    let byte = to_bytes(x);
    let expected: [Byte; 1] = [0x3a];

    assert_eq!(byte, expected);
}

#[test]
fn to_bytes_u16() {
    let x: u16 = 0x3ae2;
    let bytes = to_bytes(x);
    let expected: [Byte; 2] = [0x3a, 0xe2];

    assert_eq!(bytes, expected);
}

#[test]
fn to_bytes_u32() {
    let x: u32 = 0x3ae200;
    let bytes = to_bytes(x);
    let expected: [Byte; 4] = [0x0, 0x3a, 0xe2, 0x0];

    assert_eq!(bytes, expected);
}

#[test]
fn to_bytes_u64() {
    let x: u64 = 0x3ae200a1ff23b2;
    let bytes = to_bytes(x);
    let expected: [Byte; 8] = [0x0, 0x3a, 0xe2, 0x0, 0xa1, 0xff, 0x23, 0xb2];

    assert_eq!(bytes, expected);
}

#[test]
fn from_bytes_u8() {
    let bytes: [Byte; 1] = [0x3a];
    let x: u8 = from_bytes(bytes);
    let expected: u8 = 0x3a;

    assert_eq!(x, expected);
}

#[test]
fn from_bytes_u16() {
    let bytes: [Byte; 2] = [0x3a, 0xe2];
    let x: u16 = from_bytes(bytes);
    let expected: u16 = 0x3ae2;

    assert_eq!(x, expected);
}

#[test]
fn from_bytes_u32() {
    let bytes: [Byte; 4] = [0x0, 0x3a, 0xe2, 0x0];
    let x: u32 = from_bytes(bytes);
    let expected: u32 = 0x3ae200;

    assert_eq!(x, expected);
}

#[test]
fn from_bytes_u64() {
    let bytes: [Byte; 8] = [0x0, 0x3a, 0xe2, 0x0, 0xa1, 0xff, 0x23, 0xb2];
    let x: u64 = from_bytes(bytes);
    let expected: u64 = 0x3ae200a1ff23b2;

    assert_eq!(x, expected);
}

#[test]
fn to_bytes_extremes() {
    assert_eq!(to_bytes(0u32), [0, 0, 0, 0]);
    assert_eq!(to_bytes(u32::MAX), [0xff, 0xff, 0xff, 0xff]);
    assert_eq!(to_bytes(u64::MAX), [0xff; 8]);
    assert_eq!(to_bytes(0x0102u16), [0x01, 0x02]);
    assert_eq!(to_bytes(0x0102030405060708u64), [1, 2, 3, 4, 5, 6, 7, 8]);
}

#[test]
fn methods_agree_with_free_functions() {
    assert_eq!(0xbeefu16.to_bytes(), [0xbe, 0xef]);
    assert_eq!(<u32 as BytesConversion>::from_bytes([0xde, 0xad, 0xbe, 0xef]), 0xdeadbeef);
    assert_eq!(<u8 as BytesConversion>::from_bytes([0x7f]), 0x7f);
}

#[test]
fn roundtrip_value_bytes_value() {
    for x in [0u64, 1, 0xff, 0x100, 0x3ae200a1ff23b2, u64::MAX] {
        let y: u64 = from_bytes(to_bytes(x));
        assert_eq!(y, x);
    }
    for x in [0u16, 0x12, 0x1234, u16::MAX] {
        let y: u16 = from_bytes(to_bytes(x));
        assert_eq!(y, x);
    }
}

#[test]
fn roundtrip_bytes_value_bytes() {
    let bytes: [Byte; 4] = [0x80, 0x00, 0x7f, 0x01];
    let x: u32 = from_bytes(bytes);
    assert_eq!(to_bytes(x), bytes);
}

#[test]
fn read_n_bytes_le_reverses_and_advances() {
    let buf: [u8; 6] = [0x4d, 0x5a, 0x90, 0x00, 0x03, 0x00];
    let mut pos: usize = 0;
    let first = read_n_bytes_le::<2>(&buf, &mut pos);
    assert_eq!(first, [0x5a, 0x4d]);
    assert_eq!(pos, 2);
    let rest = read_n_bytes_le::<4>(&buf, &mut pos);
    assert_eq!(rest, [0x00, 0x03, 0x00, 0x90]);
    assert_eq!(pos, 6);
}

#[test]
fn read_n_bytes_le_then_from_bytes_is_little_endian() {
    let buf: [u8; 5] = [0xaa, 0x78, 0x56, 0x34, 0x12];
    let mut pos: usize = 1;
    let bytes = read_n_bytes_le::<4>(&buf, &mut pos);
    let x: u32 = from_bytes(bytes);
    assert_eq!(x, 0x12345678);
    assert_eq!(x, u32::from_le_bytes([0x78, 0x56, 0x34, 0x12]));
}

#[test]
fn read_zero_bytes() {
    let buf: [u8; 2] = [1, 2];
    let mut pos: usize = 2;
    let none = read_n_bytes_le::<0>(&buf, &mut pos);
    assert_eq!(none, [0u8; 0]);
    assert_eq!(pos, 2);
}
