use dicom_engine::decode::decode_dataset;
use dicom_engine::decode::decode_dataset_flagged;
use dicom_engine::decode::decode_element;
use dicom_engine::decode::decode_header;
use dicom_engine::decode::ElementCursor;
use dicom_engine::dictionary::Dictionary;
use dicom_engine::element::DataElement;
use dicom_engine::element::DataSet;
use dicom_engine::element::PixelSequence;
use dicom_engine::element::Value;
use dicom_engine::encode::encode_dataset;
use dicom_engine::equality::same_dataset;
use dicom_engine::encode::LengthPolicy;
use dicom_engine::tag::Tag;
use dicom_engine::transfer_syntax::Encoding;
use dicom_engine::value::PrimitiveValue;
use dicom_engine::vr::VR;

fn tag(group: u16, element: u16) -> Tag {
    Tag { group, element }
}

fn text(s: &str) -> PrimitiveValue {
    PrimitiveValue::from_text(s).unwrap()
}

fn sample(encapsulated: bool, explicit_vr: bool) -> DataSet {
    let mut item = DataSet::new();
    item.put(DataElement::primitive(tag(0x0008, 0x1150), VR::UI, text("1.2.840.10008.5.1.4.1.1.2")));
    item.put(DataElement::primitive(tag(0x0008, 0x1155), VR::UI, text("1.2.3")));
    let mut inner = DataSet::new();
    inner.put(DataElement::primitive(tag(0x0008, 0x1155), VR::UI, text("9.8.7.6")));
    let mut second = DataSet::new();
    second.put(DataElement::new(tag(0x0008, 0x1140), VR::SQ, Value::Sequence(vec![inner])));
    let mut ds = DataSet::new();
    ds.put(DataElement::primitive(tag(0x0008, 0x0008), VR::CS, text("DERIVED\\PRIMARY\\AXIAL")));
    ds.put(DataElement::primitive(tag(0x0008, 0x0060), VR::CS, text("CT")));
    ds.put(DataElement::empty(tag(0x0008, 0x0090), VR::PN));
    ds.put(DataElement::new(
        tag(0x0008, 0x1140),
        VR::SQ,
        Value::Sequence(vec![item, second, DataSet::new()]),
    ));
    ds.put(DataElement::primitive(tag(0x0010, 0x0010), VR::PN, text("Doe^John")));
    ds.put(DataElement::primitive(tag(0x0020, 0x0032), VR::DS, text("-1.5\\2\\3.25")));
    ds.put(DataElement::primitive(tag(0x0028, 0x0010), VR::US, PrimitiveValue::from_u16(512)));
    ds.put(DataElement::primitive(tag(0x0028, 0x0011), VR::US, PrimitiveValue::from_u16(256)));
    ds.put(DataElement::primitive(
        tag(0x0028, 0x1201),
        VR::OW,
        PrimitiveValue::Bytes(vec![0x02, 0x01, 0xFE, 0xFF, 0, 0]),
    ));
    ds.put(DataElement::primitive(
        tag(0x0028, 0x7FE0),
        VR::UR,
        PrimitiveValue::Text(b" http://example.org/x".to_vec()),
    ));
    if encapsulated {
        ds.put(DataElement::new(
            tag(0x7FE0, 0x0010),
            VR::OB,
            Value::PixelSequence(PixelSequence {
                offset_table: vec![0, 0, 0, 0, 8, 0, 0, 0],
                fragments: vec![vec![1, 2, 3, 4], vec![], vec![9, 9]],
            }),
        ));
    } else if explicit_vr {
        ds.put(DataElement::primitive(
            tag(0x7FE0, 0x0010),
            VR::OB,
            PrimitiveValue::Bytes(vec![1, 2, 3, 4, 5, 6]),
        ));
    } else {
        ds.put(DataElement::primitive(
            tag(0x7FE0, 0x0010),
            VR::OW,
            PrimitiveValue::Bytes(vec![1, 2, 3, 4, 5, 6]),
        ));
    }
    ds
}

fn round_trips(enc: Encoding, policy: &LengthPolicy) {
    let dictionary = Dictionary::standard();
    let ds = sample(enc.encapsulated, enc.explicit_vr);
    let bytes = encode_dataset(&ds, enc, policy).unwrap();
    assert_eq!(bytes.len() % 2, 0);
    let back = decode_dataset(&bytes, enc, &dictionary).unwrap();
    assert!(same_dataset(&ds, &back));
    assert_eq!(encode_dataset(&back, enc, policy).unwrap(), bytes);
}

#[test]
fn round_trip_explicit_little_endian() {
    let enc = Encoding { explicit_vr: true, big_endian: false, encapsulated: false };
    round_trips(enc, &LengthPolicy::defined());
    round_trips(enc, &LengthPolicy::undefined());
}

#[test]
fn round_trip_explicit_big_endian() {
    let enc = Encoding { explicit_vr: true, big_endian: true, encapsulated: false };
    round_trips(enc, &LengthPolicy::defined());
    round_trips(enc, &LengthPolicy::undefined());
}

#[test]
fn round_trip_implicit_little_endian() {
    let enc = Encoding { explicit_vr: false, big_endian: false, encapsulated: false };
    round_trips(enc, &LengthPolicy::defined());
    round_trips(enc, &LengthPolicy::undefined());
}

#[test]
fn round_trip_encapsulated() {
    let enc = Encoding { explicit_vr: true, big_endian: false, encapsulated: true };
    round_trips(enc, &LengthPolicy::defined());
    round_trips(enc, &LengthPolicy::undefined());
}

#[test]
fn representation_not_in_the_dictionary_is_not_read_back_under_implicit_encoding() {
    let enc = Encoding { explicit_vr: false, big_endian: false, encapsulated: false };
    let dictionary = Dictionary::standard();
    let mut ds = DataSet::new();
    ds.put(DataElement::primitive(
        tag(0x7FE0, 0x0010),
        VR::OB,
        PrimitiveValue::Bytes(vec![1, 2, 3, 4]),
    ));
    let bytes = encode_dataset(&ds, enc, &LengthPolicy::defined()).unwrap();
    let back = decode_dataset(&bytes, enc, &dictionary).unwrap();
    let e = back.get(tag(0x7FE0, 0x0010)).unwrap();
    assert_eq!(e.vr, VR::OW);
    assert_eq!(e.primitive_value(), Some(&PrimitiveValue::Bytes(vec![1, 2, 3, 4])));
}

#[test]
fn round_trip_with_a_policy_by_tag() {
    let enc = Encoding { explicit_vr: true, big_endian: false, encapsulated: false };
    let policy = LengthPolicy { undefined_by_default: false, exceptions: vec![tag(0x0008, 0x1140)] };
    assert!(policy.uses_undefined(tag(0x0008, 0x1140)));
    assert!(!policy.uses_undefined(tag(0x0008, 0x1141)));
    round_trips(enc, &policy);
    let ds = sample(false, true);
    let by_tag = encode_dataset(&ds, enc, &policy).unwrap();
    let undefined = encode_dataset(&ds, enc, &LengthPolicy::undefined()).unwrap();
    assert_eq!(by_tag, undefined);
}

#[test]
fn round_trip_of_every_number_kind() {
    let mut ds = DataSet::new();
    ds.put(DataElement::primitive(tag(0x0011, 0x0001), VR::SS, PrimitiveValue::I16(vec![-1, 2, i16::MIN])));
    ds.put(DataElement::primitive(tag(0x0011, 0x0002), VR::UL, PrimitiveValue::U32(vec![0xDEADBEEF])));
    ds.put(DataElement::primitive(tag(0x0011, 0x0003), VR::SL, PrimitiveValue::I32(vec![-2, i32::MAX])));
    ds.put(DataElement::primitive(tag(0x0011, 0x0004), VR::UV, PrimitiveValue::U64(vec![u64::MAX, 1])));
    ds.put(DataElement::primitive(tag(0x0011, 0x0005), VR::SV, PrimitiveValue::I64(vec![i64::MIN, -1])));
    ds.put(DataElement::primitive(
        tag(0x0011, 0x0006),
        VR::FL,
        PrimitiveValue::F32(vec![1.5f32.to_bits(), (-0.0f32).to_bits()]),
    ));
    ds.put(DataElement::primitive(
        tag(0x0011, 0x0007),
        VR::FD,
        PrimitiveValue::F64(vec![std::f64::consts::PI.to_bits()]),
    ));
    ds.put(DataElement::primitive(
        tag(0x0011, 0x0008),
        VR::AT,
        PrimitiveValue::Tags(vec![tag(0x0008, 0x0060), tag(0x7FE0, 0x0010)]),
    ));
    let dictionary = Dictionary::empty();
    for big_endian in [false, true] {
        let enc = Encoding { explicit_vr: true, big_endian, encapsulated: false };
        let bytes = encode_dataset(&ds, enc, &LengthPolicy::defined()).unwrap();
        let back = decode_dataset(&bytes, enc, &dictionary).unwrap();
        assert!(same_dataset(&ds, &back));
    }
}

#[test]
fn signed_and_wide_numbers_have_their_exact_bytes() {
    let mut ds = DataSet::new();
    ds.put(DataElement::primitive(tag(0x0011, 0x0001), VR::SS, PrimitiveValue::I16(vec![-2])));
    ds.put(DataElement::primitive(tag(0x0011, 0x0002), VR::UV, PrimitiveValue::U64(vec![0x0102030405060708])));
    let le = Encoding { explicit_vr: true, big_endian: false, encapsulated: false };
    let be = Encoding { explicit_vr: true, big_endian: true, encapsulated: false };
    let mut expected: Vec<u8> = vec![0x11, 0x00, 0x01, 0x00, b'S', b'S', 2, 0, 0xFE, 0xFF];
    expected.extend_from_slice(&[0x11, 0x00, 0x02, 0x00, b'U', b'V', 0, 0, 8, 0, 0, 0]);
    expected.extend_from_slice(&[8, 7, 6, 5, 4, 3, 2, 1]);
    assert_eq!(encode_dataset(&ds, le, &LengthPolicy::defined()).unwrap(), expected);
    let mut expected: Vec<u8> = vec![0x00, 0x11, 0x00, 0x01, b'S', b'S', 0, 2, 0xFF, 0xFE];
    expected.extend_from_slice(&[0x00, 0x11, 0x00, 0x02, b'U', b'V', 0, 0, 0, 0, 0, 8]);
    expected.extend_from_slice(&[1, 2, 3, 4, 5, 6, 7, 8]);
    assert_eq!(encode_dataset(&ds, be, &LengthPolicy::defined()).unwrap(), expected);
}

#[test]
fn text_is_padded_to_an_even_length() {
    let mut ds = DataSet::new();
    ds.put(DataElement::primitive(tag(0x0008, 0x0016), VR::UI, text("1.2")));
    ds.put(DataElement::primitive(tag(0x0008, 0x0060), VR::CS, text("PET")));
    let enc = Encoding { explicit_vr: true, big_endian: false, encapsulated: false };
    let bytes = encode_dataset(&ds, enc, &LengthPolicy::defined()).unwrap();
    let mut expected: Vec<u8> = vec![0x08, 0x00, 0x16, 0x00, b'U', b'I', 4, 0, b'1', b'.', b'2', 0];
    expected.extend_from_slice(&[0x08, 0x00, 0x60, 0x00, b'C', b'S', 4, 0, b'P', b'E', b'T', b' ']);
    assert_eq!(bytes, expected);
}

#[test]
fn odd_length_is_read_and_flagged() {
    let bytes: Vec<u8> = vec![0x08, 0x00, 0x60, 0x00, b'C', b'S', 3, 0, b'P', b'E', b'T'];
    let enc = Encoding { explicit_vr: true, big_endian: false, encapsulated: false };
    let dictionary = Dictionary::standard();
    let (header, value_at) =
        decode_header(&bytes, 0, bytes.len(), enc, &dictionary, &DataSet::new()).unwrap();
    assert!(header.has_odd_length());
    assert!(!header.has_undefined_length());
    assert_eq!(header.len, 3);
    assert_eq!(value_at, 8);
    let ds = decode_dataset(&bytes, enc, &dictionary).unwrap();
    let e = ds.get(tag(0x0008, 0x0060)).unwrap();
    assert_eq!(e.primitive_value().unwrap().to_text().unwrap(), "PET");
}

#[test]
fn cursor_flags_the_elements_of_odd_length() {
    let mut bytes: Vec<u8> = vec![0x08, 0x00, 0x60, 0x00, b'C', b'S', 3, 0, b'P', b'E', b'T'];
    bytes.extend_from_slice(&[0x10, 0x00, 0x10, 0x00, b'P', b'N', 2, 0, b'A', b' ']);
    bytes.extend_from_slice(&[0x10, 0x00, 0x20, 0x00, b'L', b'O', 1, 0, b'7']);
    let enc = Encoding { explicit_vr: true, big_endian: false, encapsulated: false };
    let dictionary = Dictionary::standard();
    let mut cursor = ElementCursor::new();
    let mut ds = DataSet::new();
    while cursor.read_next(&bytes, enc, &dictionary, &mut ds).unwrap() {}
    assert_eq!(cursor.pos, bytes.len());
    assert_eq!(cursor.flagged, vec![tag(0x0008, 0x0060), tag(0x0010, 0x0020)]);
    assert_eq!(ds.len(), 3);
    assert_eq!(ds.first_string(tag(0x0010, 0x0020)), Some(&b"7"[..]));
}

#[test]
fn consumed_bytes_equal_the_declared_length() {
    let mut bytes: Vec<u8> = vec![0x08, 0x00, 0x60, 0x00, b'C', b'S', 2, 0, b'C', b'T'];
    bytes.extend_from_slice(&[0x28, 0x00, 0x10, 0x00, b'U', b'S', 2, 0, 0x00, 0x02]);
    let enc = Encoding { explicit_vr: true, big_endian: false, encapsulated: false };
    let dictionary = Dictionary::standard();
    let seen = DataSet::new();
    let (header, value_at) = decode_header(&bytes, 0, bytes.len(), enc, &dictionary, &seen).unwrap();
    let mut flagged = Vec::new();
    let (first, next) =
        decode_element(&bytes, 0, bytes.len(), enc, &dictionary, &seen, &mut flagged).unwrap();
    assert_eq!(first.tag, tag(0x0008, 0x0060));
    assert_eq!(next, value_at + header.len as usize);
    assert_eq!(next, 10);
    let (second, end) =
        decode_element(&bytes, next, bytes.len(), enc, &dictionary, &seen, &mut flagged).unwrap();
    assert!(flagged.is_empty());
    assert_eq!(second.tag, tag(0x0028, 0x0010));
    assert_eq!(end, 20);
}

#[test]
fn cursor_reads_one_element_at_a_time() {
    let mut bytes: Vec<u8> = vec![0x28, 0x00, 0x10, 0x00, b'U', b'S', 2, 0, 0x00, 0x02];
    bytes.extend_from_slice(&[0x08, 0x00, 0x60, 0x00, b'C', b'S', 2, 0, b'C', b'T']);
    bytes.extend_from_slice(&[0x08, 0x00, 0x60, 0x00, b'C', b'S', 2, 0, b'M', b'R']);
    bytes.extend_from_slice(&[0x08, 0x00]);
    let enc = Encoding { explicit_vr: true, big_endian: false, encapsulated: false };
    let dictionary = Dictionary::standard();
    let mut cursor = ElementCursor::new();
    let mut ds = DataSet::new();
    assert_eq!(cursor.read_next(&bytes, enc, &dictionary, &mut ds), Ok(true));
    assert_eq!(cursor.pos, 10);
    assert_eq!(ds.len(), 1);
    assert_eq!(cursor.read_next(&bytes, enc, &dictionary, &mut ds), Ok(true));
    assert_eq!(cursor.pos, 20);
    assert_eq!(ds.len(), 2);
    assert_eq!(ds.element_at(0).tag, tag(0x0008, 0x0060));
    assert_eq!(cursor.read_next(&bytes, enc, &dictionary, &mut ds), Ok(true));
    assert_eq!(cursor.pos, 30);
    assert_eq!(ds.len(), 2);
    let modality = ds.get(tag(0x0008, 0x0060)).unwrap();
    assert_eq!(modality.primitive_value().unwrap().to_text().unwrap(), "MR");
    assert!(cursor.read_next(&bytes, enc, &dictionary, &mut ds).is_err());
    assert_eq!(cursor.pos, 30);
    assert_eq!(ds.len(), 2);
    assert!(cursor.flagged.is_empty());
    let mut at_end = ElementCursor { pos: bytes.len(), flagged: Vec::new() };
    assert_eq!(at_end.read_next(&bytes, enc, &dictionary, &mut ds), Ok(false));
}

#[test]
fn decoded_tags_are_strictly_increasing() {
    let mut bytes: Vec<u8> = vec![0x28, 0x00, 0x10, 0x00, b'U', b'S', 2, 0, 0x00, 0x02];
    bytes.extend_from_slice(&[0x08, 0x00, 0x60, 0x00, b'C', b'S', 2, 0, b'C', b'T']);
    bytes.extend_from_slice(&[0x10, 0x00, 0x10, 0x00, b'P', b'N', 0, 0]);
    bytes.extend_from_slice(&[0x08, 0x00, 0x60, 0x00, b'C', b'S', 2, 0, b'M', b'R']);
    let enc = Encoding { explicit_vr: true, big_endian: false, encapsulated: false };
    let dictionary = Dictionary::standard();
    let ds = decode_dataset(&bytes, enc, &dictionary).unwrap();
    assert_eq!(ds.len(), 3);
    for i in 1..ds.len() {
        assert!(ds.element_at(i - 1).tag.precedes(&ds.element_at(i).tag));
    }
    for i in 0..ds.len() {
        assert!(ds.element_at(i).kind_matches());
    }
}

#[test]
fn words_of_ow_are_swapped_under_big_endian() {
    let mut ds = DataSet::new();
    ds.put(DataElement::primitive(
        tag(0x7FE0, 0x0010),
        VR::OW,
        PrimitiveValue::Bytes(vec![1, 2, 3, 4]),
    ));
    ds.put(DataElement::primitive(
        tag(0x7FE0, 0x0001),
        VR::OB,
        PrimitiveValue::Bytes(vec![5, 6]),
    ));
    let dictionary = Dictionary::empty();
    let le = Encoding { explicit_vr: true, big_endian: false, encapsulated: false };
    let be = Encoding { explicit_vr: true, big_endian: true, encapsulated: false };
    let mut expected: Vec<u8> = vec![0xE0, 0x7F, 0x01, 0x00, b'O', b'B', 0, 0, 2, 0, 0, 0, 5, 6];
    expected.extend_from_slice(&[0xE0, 0x7F, 0x10, 0x00, b'O', b'W', 0, 0, 4, 0, 0, 0, 1, 2, 3, 4]);
    assert_eq!(encode_dataset(&ds, le, &LengthPolicy::defined()).unwrap(), expected);
    let mut expected: Vec<u8> = vec![0x7F, 0xE0, 0x00, 0x01, b'O', b'B', 0, 0, 0, 0, 0, 2, 5, 6];
    expected.extend_from_slice(&[0x7F, 0xE0, 0x00, 0x10, b'O', b'W', 0, 0, 0, 0, 0, 4, 2, 1, 4, 3]);
    let bytes = encode_dataset(&ds, be, &LengthPolicy::defined()).unwrap();
    assert_eq!(bytes, expected);
    let back = decode_dataset(&bytes, be, &dictionary).unwrap();
    assert!(same_dataset(&ds, &back));
}

#[test]
fn ow_is_read_as_raw_bytes() {
    let bytes: Vec<u8> = vec![0xE0, 0x7F, 0x10, 0x00, 0x4F, 0x57, 0, 0, 2, 0, 0, 0, 1, 2];
    let enc = Encoding { explicit_vr: true, big_endian: false, encapsulated: false };
    let ds = decode_dataset(&bytes, enc, &Dictionary::standard()).unwrap();
    let e = ds.get(tag(0x7FE0, 0x0010)).unwrap();
    assert_eq!(e.vr, VR::OW);
    assert_eq!(e.primitive_value(), Some(&PrimitiveValue::Bytes(vec![1, 2])));
    assert!(e.kind_matches());
}

#[test]
fn odd_ow_value_keeps_its_last_byte_under_big_endian() {
    let bytes: Vec<u8> = vec![0x7F, 0xE0, 0x00, 0x10, 0x4F, 0x57, 0, 0, 0, 0, 0, 3, 1, 2, 3];
    let enc = Encoding { explicit_vr: true, big_endian: true, encapsulated: false };
    let (ds, flagged) = decode_dataset_flagged(&bytes, enc, &Dictionary::standard()).unwrap();
    let e = ds.get(tag(0x7FE0, 0x0010)).unwrap();
    assert_eq!(e.primitive_value(), Some(&PrimitiveValue::Bytes(vec![2, 1, 3])));
    assert_eq!(flagged, vec![tag(0x7FE0, 0x0010)]);
}

#[test]
fn odd_lengths_are_flagged_at_every_depth() {
    let mut bytes: Vec<u8> = vec![0x08, 0x00, 0x60, 0x00, b'C', b'S', 3, 0, b'P', b'E', b'T'];
    bytes.extend_from_slice(&[0x08, 0x00, 0x40, 0x11, b'S', b'Q', 0, 0, 0xFF, 0xFF, 0xFF, 0xFF]);
    bytes.extend_from_slice(&[0xFE, 0xFF, 0x00, 0xE0, 0xFF, 0xFF, 0xFF, 0xFF]);
    bytes.extend_from_slice(&[0x08, 0x00, 0x50, 0x11, b'U', b'I', 3, 0, b'1', b'.', b'2']);
    bytes.extend_from_slice(&[0x08, 0x00, 0x55, 0x11, b'U', b'I', 4, 0, b'3', b'.', b'4', 0]);
    bytes.extend_from_slice(&[0xFE, 0xFF, 0x0D, 0xE0, 0, 0, 0, 0]);
    bytes.extend_from_slice(&[0xFE, 0xFF, 0x00, 0xE0, 9, 0, 0, 0]);
    bytes.extend_from_slice(&[0x10, 0x00, 0x20, 0x00, b'L', b'O', 1, 0, b'7']);
    bytes.extend_from_slice(&[0xFE, 0xFF, 0xDD, 0xE0, 0, 0, 0, 0]);
    bytes.extend_from_slice(&[0x10, 0x00, 0x10, 0x00, b'P', b'N', 2, 0, b'A', b' ']);
    bytes.extend_from_slice(&[0x28, 0x00, 0x10, 0x00, b'U', b'S', 2, 0, 1, 0]);
    let enc = Encoding { explicit_vr: true, big_endian: false, encapsulated: false };
    let dictionary = Dictionary::standard();
    let (ds, flagged) = decode_dataset_flagged(&bytes, enc, &dictionary).unwrap();
    assert_eq!(ds.len(), 4);
    assert_eq!(flagged, vec![tag(0x0008, 0x0060), tag(0x0008, 0x1150), tag(0x0010, 0x0020)]);
    let items = ds.get(tag(0x0008, 0x1140)).unwrap().items().unwrap();
    assert_eq!(items[1].first_string(tag(0x0010, 0x0020)), Some(&b"7"[..]));
    let mut cursor = ElementCursor::new();
    let mut seen = DataSet::new();
    while cursor.read_next(&bytes, enc, &dictionary, &mut seen).unwrap() {}
    assert_eq!(cursor.flagged, flagged);
    let plain = decode_dataset(&bytes, enc, &dictionary).unwrap();
    assert!(same_dataset(&plain, &ds));
}

#[test]
fn sequence_element_of_length_zero_holds_no_items() {
    let bytes: Vec<u8> = vec![0x08, 0x00, 0x40, 0x11, b'S', b'Q', 0, 0, 0, 0, 0, 0];
    let enc = Encoding { explicit_vr: true, big_endian: false, encapsulated: false };
    let ds = decode_dataset(&bytes, enc, &Dictionary::standard()).unwrap();
    let e = ds.get(tag(0x0008, 0x1140)).unwrap();
    assert_eq!(e.vr, VR::SQ);
    assert_eq!(e.items().unwrap().len(), 0);
    assert!(e.kind_matches());
    assert!(!DataElement::empty(tag(0x0008, 0x1140), VR::SQ).kind_matches());
    assert!(DataElement::empty(tag(0x0008, 0x0060), VR::CS).kind_matches());
}
