use maxminddb::decode::{
    bytes_to_usize, bytes_to_usize_with_prefix, read_bool, read_control, read_f64_bits, read_map,
    read_pointer, read_str, read_str_array, read_usize, str_eq,
};
use maxminddb::Error;

#[test]
fn bytes_to_usize_values() {
    assert_eq!(bytes_to_usize(&[]), 0);
    assert_eq!(bytes_to_usize(&[0x2a]), 42);
    assert_eq!(bytes_to_usize(&[0x01, 0x00]), 256);
    assert_eq!(bytes_to_usize(&[0x12, 0x34, 0x56]), 0x123456);
    assert_eq!(bytes_to_usize(&[0xff, 0xff, 0xff, 0xff]), 0xffff_ffff);
}

#[test]
fn bytes_to_usize_prefix_values() {
    assert_eq!(bytes_to_usize_with_prefix(0, &[0x10]), 0x10);
    assert_eq!(bytes_to_usize_with_prefix(7, &[0xff]), 7 * 256 + 255);
    assert_eq!(bytes_to_usize_with_prefix(0x0f, &[0xff, 0xff, 0xff]), 0x0fff_ffff);
}

#[test]
fn control_sizes_at_boundaries() {
    // size field below 29 is final
    let mut off = 0;
    assert_eq!(read_control(&[2 << 5 | 28], &mut off).unwrap(), (2, 28));
    assert_eq!(off, 1);

    // one extension byte: 29 + b
    let mut off = 0;
    assert_eq!(read_control(&[2 << 5 | 29, 0], &mut off).unwrap(), (2, 29));
    assert_eq!(off, 2);
    let mut off = 0;
    assert_eq!(read_control(&[2 << 5 | 29, 255], &mut off).unwrap(), (2, 284));

    // two extension bytes: 285 + big-endian value
    let mut off = 0;
    assert_eq!(read_control(&[2 << 5 | 30, 0, 0], &mut off).unwrap(), (2, 285));
    assert_eq!(off, 3);
    let mut off = 0;
    assert_eq!(read_control(&[2 << 5 | 30, 0xff, 0xff], &mut off).unwrap(), (2, 65820));

    // three extension bytes: 65821 + big-endian value
    let mut off = 0;
    assert_eq!(read_control(&[2 << 5 | 31, 0, 0, 0], &mut off).unwrap(), (2, 65821));
    assert_eq!(off, 4);
    let mut off = 0;
    assert_eq!(read_control(&[2 << 5 | 31, 0, 0, 5], &mut off).unwrap(), (2, 65826));
}

#[test]
fn control_extended_type() {
    // type code 0 means the next byte + 7 is the real code
    let mut off = 0;
    assert_eq!(read_control(&[0x01, 7], &mut off).unwrap(), (14, 1));
    assert_eq!(off, 2);
}

#[test]
fn control_out_of_bounds() {
    let mut off = 0;
    assert!(matches!(read_control(&[], &mut off), Err(Error::InvalidOffset)));
    let mut off = 1;
    assert!(matches!(read_control(&[0x42], &mut off), Err(Error::InvalidOffset)));
    // extension bytes missing
    let mut off = 0;
    assert!(matches!(read_control(&[2 << 5 | 30, 1], &mut off), Err(Error::InvalidOffset)));
}

#[test]
fn pointer_size_class_offsets() {
    // pointer size 1: no constant
    let mut off = 0;
    assert_eq!(read_pointer(&[0x0a], &mut off, 0b00_000).unwrap(), 10);
    assert_eq!(off, 1);
    // pointer size 1 with a 3-bit prefix
    let mut off = 0;
    assert_eq!(read_pointer(&[0xff], &mut off, 0b00_111).unwrap(), 7 * 256 + 255);
    // pointer size 2: + 2048
    let mut off = 0;
    assert_eq!(read_pointer(&[0, 0], &mut off, 0b01_000).unwrap(), 2048);
    assert_eq!(off, 2);
    // pointer size 3: + 526336
    let mut off = 0;
    assert_eq!(read_pointer(&[0, 0, 0], &mut off, 0b10_000).unwrap(), 526336);
    assert_eq!(off, 3);
    // pointer size 4: no prefix, no constant
    let mut off = 0;
    assert_eq!(read_pointer(&[0, 0, 0, 1], &mut off, 0b11_000).unwrap(), 1);
    assert_eq!(off, 4);
}

#[test]
fn string_in_place_and_utf8() {
    // "abc"
    let buf = [2 << 5 | 3, b'a', b'b', b'c'];
    let mut off = 0;
    assert_eq!(read_str(&buf, &mut off).unwrap(), "abc");
    assert_eq!(off, 4);

    // a two-byte UTF-8 character decodes to one char
    let buf = [2 << 5 | 2, 0xc3, 0xa9];
    let mut off = 0;
    let s = read_str(&buf, &mut off).unwrap();
    assert_eq!(s, "\u{e9}");
    assert_eq!(s.chars().count(), 1);

    // invalid UTF-8 is rejected
    let buf = [2 << 5 | 1, 0xff];
    let mut off = 0;
    assert!(matches!(read_str(&buf, &mut off), Err(Error::InvalidUtf8)));
}

#[test]
fn string_through_pointer_advances_by_pointer_width() {
    // offset 0: pointer (size class 1) to offset 3; then padding; string at 3
    let buf = [1 << 5 | 0b00_000, 3, 0xee, 2 << 5 | 2, b'h', b'i'];
    let mut off = 0;
    assert_eq!(read_str(&buf, &mut off).unwrap(), "hi");
    // the outer cursor moved past the pointer only: 1 control + 1 address byte
    assert_eq!(off, 2);
}

#[test]
fn bool_values() {
    let mut off = 0;
    assert_eq!(read_bool(&[0x01, 7], &mut off).unwrap(), true);
    let mut off = 0;
    assert_eq!(read_bool(&[0x00, 7], &mut off).unwrap(), false);
    // a string where a boolean is expected
    let mut off = 0;
    assert!(matches!(read_bool(&[2 << 5 | 0], &mut off), Err(Error::InvalidDataType(2))));
}

#[test]
fn uint_widths_and_truncation() {
    // UINT16 of one byte
    let mut off = 0;
    assert_eq!(read_usize(&[5 << 5 | 1, 42], &mut off).unwrap(), 42);
    // zero-size integer is 0
    let mut off = 0;
    assert_eq!(read_usize(&[6 << 5 | 0], &mut off).unwrap(), 0);
    // UINT64 (extended type 9) of 8 bytes
    let mut buf = vec![0x00 | 8, 2];
    buf.extend_from_slice(&0x0123_4567_89ab_cdefu64.to_be_bytes());
    let mut off = 0;
    assert_eq!(read_usize(&buf, &mut off).unwrap(), 0x0123_4567_89ab_cdef);
    // UINT128 (extended type 10) of 9 bytes keeps the low 64 bits
    let mut buf = vec![0x00 | 9, 3];
    buf.push(0xaa);
    buf.extend_from_slice(&0x0123_4567_89ab_cdefu64.to_be_bytes());
    let mut off = 0;
    assert_eq!(read_usize(&buf, &mut off).unwrap(), 0x0123_4567_89ab_cdef);
    assert_eq!(off, buf.len());
}

#[test]
fn double_bits_round_trip() {
    let mut buf = vec![3 << 5 | 8];
    buf.extend_from_slice(&51.5142f64.to_be_bytes());
    let mut off = 0;
    let bits = read_f64_bits(&buf, &mut off).unwrap();
    assert_eq!(f64::from_bits(bits), 51.5142);
    assert_eq!(off, 9);
    // a double of the wrong width is rejected
    let buf = [3 << 5 | 4, 0, 0, 0, 0];
    let mut off = 0;
    assert!(matches!(read_f64_bits(&buf, &mut off), Err(Error::InvalidDataType(3))));
}

#[test]
fn string_array_and_map() {
    // ["en", "de"]
    let mut arr = vec![0x00 | 2, 4]; // extended type 11, size 2
    arr.extend_from_slice(&[2 << 5 | 2, b'e', b'n']);
    arr.extend_from_slice(&[2 << 5 | 2, b'd', b'e']);
    let mut off = 0;
    let v = read_str_array(&arr, &mut off).unwrap();
    assert_eq!(v, vec!["en".to_string(), "de".to_string()]);
    assert_eq!(off, arr.len());

    // {"en": "Yes"}
    let mut m = vec![7 << 5 | 1];
    m.extend_from_slice(&[2 << 5 | 2, b'e', b'n']);
    m.extend_from_slice(&[2 << 5 | 3, b'Y', b'e', b's']);
    let mut off = 0;
    let v = read_map(&m, &mut off).unwrap();
    assert_eq!(v, vec![("en".to_string(), "Yes".to_string())]);
    assert_eq!(off, m.len());
}

#[test]
fn str_eq_compares_contents() {
    assert!(str_eq("abc", "abc"));
    assert!(!str_eq("abc", "abd"));
    assert!(!str_eq("abc", "ab"));
    assert!(str_eq("", ""));
}
