use dicom_engine::coerce::element_from_text;
use dicom_engine::coerce::put_text;
use dicom_engine::coerce::value_from_text;
use dicom_engine::coerce::CoerceError;
use dicom_engine::dictionary::get_by_name;
use dicom_engine::dictionary::Dictionary;
use dicom_engine::element::DataElement;
use dicom_engine::element::DataSet;
use dicom_engine::element::Edit;
use dicom_engine::element::Value;
use dicom_engine::error::EncodeError;
use dicom_engine::pixel::finish_pixel_access;
use dicom_engine::pixel::pixel_data;
use dicom_engine::pixel::CodecOutcome;
use dicom_engine::pixel::CodecRegistry;
use dicom_engine::pixel::PixelAccess;
use dicom_engine::pixel::PixelAccessError;
use dicom_engine::element::PixelSequence;
use dicom_engine::tag::Tag;
use dicom_engine::transfer_syntax::TransferSyntax;
use dicom_engine::value::PrimitiveValue;
use dicom_engine::vr::ValueKind;
use dicom_engine::vr::VR;

fn tag(group: u16, element: u16) -> Tag {
    Tag { group, element }
}

fn short(group: u16, element: u16, v: u16) -> DataElement {
    DataElement::primitive(tag(group, element), VR::US, PrimitiveValue::from_u16(v))
}

fn tags_of(ds: &DataSet) -> Vec<(u16, u16)> {
    ds.elements.iter().map(|e| (e.tag.group, e.tag.element)).collect()
}

#[test]
fn put_keeps_the_tags_in_order() {
    let mut ds = DataSet::new();
    ds.put(short(0x0028, 0x0011, 3));
    ds.put(short(0x0008, 0x0001, 1));
    ds.put(short(0x7FE0, 0x0001, 5));
    ds.put(short(0x0028, 0x0010, 2));
    ds.put(short(0x0028, 0x0100, 4));
    assert_eq!(
        tags_of(&ds),
        vec![(0x0008, 0x0001), (0x0028, 0x0010), (0x0028, 0x0011), (0x0028, 0x0100), (0x7FE0, 0x0001)]
    );
    assert_eq!(ds.len(), 5);
    assert_eq!(ds.element_at(2).primitive_value().unwrap().first_u16(), Some(3));
}

#[test]
fn the_last_write_wins() {
    let mut ds = DataSet::new();
    ds.put(short(0x0028, 0x0010, 1));
    ds.put(short(0x0028, 0x0011, 2));
    ds.put(short(0x0028, 0x0010, 3));
    assert_eq!(ds.len(), 2);
    let rows = ds.get(tag(0x0028, 0x0010)).unwrap();
    assert_eq!(rows.primitive_value().unwrap().first_u16(), Some(3));
    let columns = ds.get(tag(0x0028, 0x0011)).unwrap();
    assert_eq!(columns.primitive_value().unwrap().first_u16(), Some(2));
}

#[test]
fn remove_takes_the_element_out() {
    let mut ds = DataSet::new();
    ds.put(short(0x0028, 0x0010, 1));
    ds.put(short(0x0028, 0x0011, 2));
    ds.put(short(0x0028, 0x0100, 3));
    let removed = ds.remove(tag(0x0028, 0x0011)).unwrap();
    assert_eq!(removed.primitive_value().unwrap().first_u16(), Some(2));
    assert!(ds.get(tag(0x0028, 0x0011)).is_none());
    assert!(ds.remove(tag(0x0028, 0x0011)).is_none());
    assert_eq!(tags_of(&ds), vec![(0x0028, 0x0010), (0x0028, 0x0100)]);
    assert!(DataSet::new().remove(tag(1, 1)).is_none());
}

#[test]
fn get_by_name_goes_through_the_dictionary() {
    let dictionary = Dictionary::standard();
    let mut ds = DataSet::new();
    ds.put(short(0x0028, 0x0010, 512));
    let rows = get_by_name(&ds, &dictionary, "Rows").unwrap();
    assert_eq!(rows.tag, tag(0x0028, 0x0010));
    assert!(get_by_name(&ds, &dictionary, "Columns").is_none());
    assert!(get_by_name(&ds, &dictionary, "NoSuchAttribute").is_none());
    assert_eq!(ds.first_string(tag(0x0028, 0x0010)), None);
}

#[test]
fn changes_are_made_in_their_order() {
    let mut ds = DataSet::new();
    ds.put(short(0x0028, 0x0010, 1));
    ds.put(short(0x0028, 0x0011, 2));
    ds.apply(vec![
        Edit::Put(short(0x0028, 0x0100, 8)),
        Edit::Remove(tag(0x0028, 0x0010)),
        Edit::Put(short(0x0028, 0x0011, 20)),
        Edit::Put(short(0x0028, 0x0101, 7)),
        Edit::Remove(tag(0x0028, 0x0101)),
        Edit::Remove(tag(0x0028, 0x0102)),
        Edit::Put(short(0x0028, 0x0102, 6)),
    ]);
    assert_eq!(tags_of(&ds), vec![(0x0028, 0x0011), (0x0028, 0x0100), (0x0028, 0x0102)]);
    assert_eq!(ds.get(tag(0x0028, 0x0011)).unwrap().primitive_value().unwrap().first_u16(), Some(20));
    assert_eq!(ds.get(tag(0x0028, 0x0102)).unwrap().primitive_value().unwrap().first_u16(), Some(6));
}

#[test]
fn checked_put_refuses_a_value_of_the_wrong_kind() {
    let mut ds = DataSet::new();
    ds.put(short(0x0028, 0x0010, 1));
    let bad = DataElement::primitive(tag(0x0028, 0x0011), VR::US, PrimitiveValue::Bytes(vec![1, 2]));
    assert_eq!(
        ds.put_checked(bad),
        Err(EncodeError::VrMismatch {
            tag: tag(0x0028, 0x0011),
            expected: ValueKind::U16,
            actual: ValueKind::Bytes,
        })
    );
    assert_eq!(ds.len(), 1);
    assert_eq!(ds.put_checked(short(0x0028, 0x0011, 2)), Ok(()));
    assert_eq!(ds.put_checked(DataElement::empty(tag(0x0028, 0x0100), VR::US)), Ok(()));
    assert_eq!(ds.len(), 3);
    let items = DataElement::new(tag(0x0008, 0x1140), VR::SQ, Value::Sequence(Vec::new()));
    assert_eq!(items.kind_error(), None);
    let fragments = DataElement::new(
        tag(0x7FE0, 0x0010),
        VR::UN,
        Value::PixelSequence(PixelSequence { offset_table: vec![], fragments: vec![] }),
    );
    assert_eq!(
        fragments.kind_error(),
        Some(EncodeError::VrMismatch {
            tag: tag(0x7FE0, 0x0010),
            expected: ValueKind::Bytes,
            actual: ValueKind::Bytes,
        })
    );
}

#[test]
fn text_is_read_as_the_dictionary_says() {
    let dictionary = Dictionary::standard();
    let mut ds = DataSet::new();
    assert_eq!(put_text(&mut ds, &dictionary, tag(0x0028, 0x0010), "512"), Ok(()));
    assert_eq!(put_text(&mut ds, &dictionary, tag(0x0008, 0x0060), " CT "), Ok(()));
    assert_eq!(put_text(&mut ds, &dictionary, tag(0x0028, 0x1101), "256\\0\\16"), Ok(()));
    assert_eq!(put_text(&mut ds, &dictionary, tag(0x0010, 0x0010), ""), Ok(()));
    let rows = ds.get(tag(0x0028, 0x0010)).unwrap();
    assert_eq!(rows.vr, VR::US);
    assert_eq!(rows.primitive_value(), Some(&PrimitiveValue::U16(vec![512])));
    let modality = ds.get(tag(0x0008, 0x0060)).unwrap();
    assert_eq!(modality.vr, VR::CS);
    assert_eq!(modality.primitive_value(), Some(&PrimitiveValue::Strings(vec![b"CT".to_vec()])));
    let descriptor = ds.get(tag(0x0028, 0x1101)).unwrap();
    assert_eq!(descriptor.primitive_value(), Some(&PrimitiveValue::U16(vec![256, 0, 16])));
    let name = ds.get(tag(0x0010, 0x0010)).unwrap();
    assert_eq!(name.vr, VR::PN);
    assert!(name.primitive_value().is_none());
}

#[test]
fn text_that_cannot_be_read_is_refused() {
    let dictionary = Dictionary::standard();
    let mut ds = DataSet::new();
    assert_eq!(
        put_text(&mut ds, &dictionary, tag(0x0028, 0x0010), "65536"),
        Err(CoerceError::NotANumber)
    );
    assert_eq!(
        put_text(&mut ds, &dictionary, tag(0x0028, 0x0010), "12\\x"),
        Err(CoerceError::NotANumber)
    );
    assert_eq!(
        put_text(&mut ds, &dictionary, tag(0x1234, 0x5678), "1"),
        Err(CoerceError::UnknownTag)
    );
    assert_eq!(
        put_text(&mut ds, &dictionary, tag(0x0008, 0x0060), "\u{20ac}"),
        Err(CoerceError::NotInRepertoire)
    );
    assert_eq!(
        put_text(&mut ds, &dictionary, tag(0x7FE0, 0x0001), "1"),
        Ok(())
    );
    assert_eq!(
        put_text(&mut ds, &dictionary, tag(0x0028, 0x2000), "1"),
        Err(CoerceError::Unsupported(ValueKind::Bytes))
    );
    assert_eq!(ds.len(), 1);
    assert!(element_from_text(&dictionary, &ds, tag(0x0008, 0x1140), "x").is_err());
}

#[test]
fn numbers_of_every_integer_kind_are_read_from_text() {
    assert_eq!(value_from_text(ValueKind::I16, b"-32768\\+7"), Ok(PrimitiveValue::I16(vec![i16::MIN, 7])));
    assert_eq!(value_from_text(ValueKind::I16, b"32768"), Err(CoerceError::NotANumber));
    assert_eq!(value_from_text(ValueKind::U32, b"4294967295"), Ok(PrimitiveValue::U32(vec![u32::MAX])));
    assert_eq!(value_from_text(ValueKind::U32, b"4294967296"), Err(CoerceError::NotANumber));
    assert_eq!(value_from_text(ValueKind::I32, b"-2147483648"), Ok(PrimitiveValue::I32(vec![i32::MIN])));
    assert_eq!(
        value_from_text(ValueKind::U64, b"18446744073709551615"),
        Ok(PrimitiveValue::U64(vec![u64::MAX]))
    );
    assert_eq!(value_from_text(ValueKind::U64, b"18446744073709551616"), Err(CoerceError::NotANumber));
    assert_eq!(
        value_from_text(ValueKind::I64, b"-9223372036854775808\\9223372036854775807"),
        Ok(PrimitiveValue::I64(vec![i64::MIN, i64::MAX]))
    );
    assert_eq!(value_from_text(ValueKind::I64, b"9223372036854775808"), Err(CoerceError::NotANumber));
    assert_eq!(value_from_text(ValueKind::Text, b" a\\b  "), Ok(PrimitiveValue::Text(b" a\\b".to_vec())));
    assert_eq!(value_from_text(ValueKind::F32, b"1.5"), Err(CoerceError::Unsupported(ValueKind::F32)));
}

#[test]
fn native_pixel_data_is_given_as_stored() {
    let mut ds = DataSet::new();
    ds.put(DataElement::primitive(
        tag(0x7FE0, 0x0010),
        VR::OW,
        PrimitiveValue::Bytes(vec![2, 1, 4, 3]),
    ));
    let codecs = CodecRegistry::new();
    let little = TransferSyntax::new("1.2.840.10008.1.2.1", true, false, false);
    let big = TransferSyntax::new("1.2.840.10008.1.2.2", true, true, false);
    assert_eq!(pixel_data(&ds, &little, &codecs), Ok(PixelAccess::Native(vec![2, 1, 4, 3])));
    assert_eq!(pixel_data(&ds, &big, &codecs), Ok(PixelAccess::Native(vec![1, 2, 3, 4])));
    assert_eq!(pixel_data(&DataSet::new(), &little, &codecs), Err(PixelAccessError::NoPixelData));
    let mut empty = DataSet::new();
    empty.put(DataElement::empty(tag(0x7FE0, 0x0010), VR::OB));
    assert_eq!(pixel_data(&empty, &little, &codecs), Ok(PixelAccess::Native(vec![])));
    let mut items = DataSet::new();
    items.put(DataElement::new(tag(0x7FE0, 0x0010), VR::SQ, Value::Sequence(vec![])));
    assert_eq!(pixel_data(&items, &little, &codecs), Err(PixelAccessError::NotPixelData));
}

#[test]
fn fragments_go_to_the_registered_codec() {
    let mut ds = DataSet::new();
    ds.put(DataElement::new(
        tag(0x7FE0, 0x0010),
        VR::OB,
        Value::PixelSequence(PixelSequence { offset_table: vec![], fragments: vec![vec![1, 2]] }),
    ));
    let jpeg = TransferSyntax::new("1.2.840.10008.1.2.4.50", true, false, false);
    let mut codecs = CodecRegistry::new();
    assert_eq!(pixel_data(&ds, &jpeg, &codecs), Err(PixelAccessError::CodecUnavailable));
    assert_eq!(codecs.register(b"1.2.840.10008.1.2.4.70".to_vec()), 0);
    assert_eq!(pixel_data(&ds, &jpeg, &codecs), Err(PixelAccessError::CodecUnavailable));
    assert_eq!(codecs.register(b"1.2.840.10008.1.2.4.50".to_vec()), 1);
    assert_eq!(pixel_data(&ds, &jpeg, &codecs), Ok(PixelAccess::Encapsulated { codec: 1 }));
    assert_eq!(codecs.find(b"1.2.840.10008.1.2.4.70"), Some(0));
    assert_eq!(finish_pixel_access(CodecOutcome::Decoded(vec![9, 8])), Ok(vec![9, 8]));
    assert_eq!(finish_pixel_access(CodecOutcome::Failed), Err(PixelAccessError::CodecFailed));
}
