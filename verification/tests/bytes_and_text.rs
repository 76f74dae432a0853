use dicom_engine::bytes::i16_from_bits;
use dicom_engine::bytes::i16_to_bits;
use dicom_engine::bytes::i32_from_bits;
use dicom_engine::bytes::i32_to_bits;
use dicom_engine::bytes::i64_from_bits;
use dicom_engine::bytes::i64_to_bits;
use dicom_engine::bytes::push_u16;
use dicom_engine::bytes::push_u32;
use dicom_engine::bytes::push_u64;
use dicom_engine::bytes::read_u16;
use dicom_engine::bytes::read_u32;
use dicom_engine::bytes::read_u64;
use dicom_engine::text::bytes_equal;
use dicom_engine::text::bytes_to_string;
use dicom_engine::text::join_strings;
use dicom_engine::text::pad_to_even;
use dicom_engine::text::split_strings;
use dicom_engine::text::string_to_bytes;
use dicom_engine::text::trim_text;
use dicom_engine::text::trim_window;

const BYTES: [u8; 10] = [0xAA, 0x01, 0x02, 0x03, 0x04, 0x05, 0x06, 0x07, 0x08, 0xBB];

#[test]
fn numbers_are_read_in_little_endian() {
    assert_eq!(read_u16(&BYTES, 1, false), 0x0201);
    assert_eq!(read_u32(&BYTES, 1, false), 0x04030201);
    assert_eq!(read_u64(&BYTES, 1, false), 0x0807060504030201);
}

#[test]
fn numbers_are_read_in_big_endian() {
    assert_eq!(read_u16(&BYTES, 1, true), 0x0102);
    assert_eq!(read_u32(&BYTES, 1, true), 0x01020304);
    assert_eq!(read_u64(&BYTES, 1, true), 0x0102030405060708);
}

#[test]
fn numbers_are_written_in_little_endian() {
    let mut out: Vec<u8> = vec![0xAA];
    push_u16(&mut out, 0x0201, false);
    push_u32(&mut out, 0x06050403, false);
    push_u64(&mut out, 0x0E0D0C0B0A090807, false);
    assert_eq!(out, vec![0xAA, 1, 2, 3, 4, 5, 6, 7, 8, 9, 10, 11, 12, 13, 14]);
}

#[test]
fn numbers_are_written_in_big_endian() {
    let mut out: Vec<u8> = vec![0xAA];
    push_u16(&mut out, 0x0102, true);
    push_u32(&mut out, 0x03040506, true);
    push_u64(&mut out, 0x0708090A0B0C0D0E, true);
    assert_eq!(out, vec![0xAA, 1, 2, 3, 4, 5, 6, 7, 8, 9, 10, 11, 12, 13, 14]);
}

#[test]
fn written_numbers_are_read_back() {
    for big_endian in [false, true] {
        let mut out: Vec<u8> = Vec::new();
        push_u16(&mut out, 0xBEEF, big_endian);
        push_u32(&mut out, 0xDEADBEEF, big_endian);
        push_u64(&mut out, 0x0123456789ABCDEF, big_endian);
        assert_eq!(read_u16(&out, 0, big_endian), 0xBEEF);
        assert_eq!(read_u32(&out, 2, big_endian), 0xDEADBEEF);
        assert_eq!(read_u64(&out, 6, big_endian), 0x0123456789ABCDEF);
    }
}

#[test]
fn signed_readings_are_twos_complement() {
    assert_eq!(i16_from_bits(0xFFFF), -1);
    assert_eq!(i16_from_bits(0x8000), i16::MIN);
    assert_eq!(i16_from_bits(0x7FFF), i16::MAX);
    assert_eq!(i16_to_bits(-2), 0xFFFE);
    assert_eq!(i32_from_bits(0xFFFF_FFFE), -2);
    assert_eq!(i32_to_bits(i32::MIN), 0x8000_0000);
    assert_eq!(i64_from_bits(u64::MAX), -1);
    assert_eq!(i64_to_bits(i64::MIN), 0x8000_0000_0000_0000);
    for v in [i16::MIN, -1, 0, 1, i16::MAX] {
        assert_eq!(i16_from_bits(i16_to_bits(v)), v);
    }
    for v in [i32::MIN, -1, 0, 1, i32::MAX] {
        assert_eq!(i32_from_bits(i32_to_bits(v)), v);
    }
    for v in [i64::MIN, -1, 0, 1, i64::MAX] {
        assert_eq!(i64_from_bits(i64_to_bits(v)), v);
    }
}

#[test]
fn strings_are_split_and_trimmed() {
    let parts = split_strings(b" A \\B\\\\ C D\0");
    assert_eq!(parts, vec![b"A".to_vec(), b"B".to_vec(), b"".to_vec(), b"C D".to_vec()]);
    assert_eq!(split_strings(b""), vec![b"".to_vec()]);
    assert_eq!(split_strings(b"  "), vec![b"".to_vec()]);
    assert_eq!(split_strings(b"\\"), vec![b"".to_vec(), b"".to_vec()]);
}

#[test]
fn strings_are_joined_and_padded() {
    let parts = vec![b"A".to_vec(), b"BC".to_vec(), b"".to_vec(), b"D".to_vec()];
    let mut joined = join_strings(&parts);
    assert_eq!(joined, b"A\\BC\\\\D".to_vec());
    pad_to_even(&mut joined, b' ');
    assert_eq!(joined, b"A\\BC\\\\D ".to_vec());
    pad_to_even(&mut joined, b' ');
    assert_eq!(joined, b"A\\BC\\\\D ".to_vec());
    assert_eq!(split_strings(&joined), parts);
    assert_eq!(join_strings(&Vec::new()), Vec::<u8>::new());
}

#[test]
fn a_single_text_loses_only_its_trailing_padding() {
    assert_eq!(trim_text(b"  two words \0 "), b"  two words".to_vec());
    assert_eq!(trim_text(b"   "), Vec::<u8>::new());
    assert_eq!(trim_window(b"xx ab  yy", 2, 7), b"ab".to_vec());
}

#[test]
fn bytes_become_the_characters_with_their_numbers() {
    assert_eq!(bytes_to_string(&[0x43, 0x54]), "CT");
    assert_eq!(bytes_to_string(&[0x4A, 0xF6, 0x72, 0x67, 0xE9]), "J\u{f6}rg\u{e9}");
    assert_eq!(bytes_to_string(&[0xFF, 0x80, 0x00]), "\u{ff}\u{80}\u{0}");
    assert_eq!(bytes_to_string(&[]), "");
}

#[test]
fn characters_become_the_bytes_with_their_numbers() {
    assert_eq!(string_to_bytes("CT"), Some(vec![0x43, 0x54]));
    assert_eq!(string_to_bytes("J\u{f6}rg\u{e9}"), Some(vec![0x4A, 0xF6, 0x72, 0x67, 0xE9]));
    assert_eq!(string_to_bytes(""), Some(vec![]));
    assert_eq!(string_to_bytes("\u{100}"), None);
    assert_eq!(string_to_bytes("price in \u{20ac}"), None);
}

#[test]
fn byte_strings_are_compared() {
    assert!(bytes_equal(b"abc", b"abc"));
    assert!(!bytes_equal(b"abc", b"abd"));
    assert!(!bytes_equal(b"abc", b"ab"));
    assert!(bytes_equal(b"", b""));
}
