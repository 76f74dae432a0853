use dicom_engine::decode::decode_dataset;
use dicom_engine::dictionary::get_by_name;
use dicom_engine::dictionary::Dictionary;
use dicom_engine::dictionary::Multiplicity;
use dicom_engine::dictionary::PrivateEntry;
use dicom_engine::element::DataSet;
use dicom_engine::element::Value;
use dicom_engine::encode::encode_dataset;
use dicom_engine::encode::LengthPolicy;
use dicom_engine::error::DecodeErrorKind;
use dicom_engine::pixel::pixel_data;
use dicom_engine::pixel::CodecRegistry;
use dicom_engine::pixel::PixelAccessError;
use dicom_engine::tag::Tag;
use dicom_engine::transfer_syntax::Encoding;
use dicom_engine::transfer_syntax::TransferSyntax;
use dicom_engine::value::PrimitiveValue;
use dicom_engine::vr::VR;

fn explicit_le() -> Encoding {
    Encoding { explicit_vr: true, big_endian: false, encapsulated: false }
}

fn implicit_le() -> Encoding {
    Encoding { explicit_vr: false, big_endian: false, encapsulated: false }
}

fn text_of(ds: &DataSet, tag: Tag) -> String {
    ds.get(tag).unwrap().primitive_value().unwrap().to_text().unwrap()
}

fn sequence_stream() -> Vec<u8> {
    let mut bytes: Vec<u8> = Vec::new();
    bytes.extend_from_slice(&[0x08, 0x00, 0x40, 0x11, b'S', b'Q', 0, 0, 0xFF, 0xFF, 0xFF, 0xFF]);
    bytes.extend_from_slice(&[0xFE, 0xFF, 0x00, 0xE0, 0xFF, 0xFF, 0xFF, 0xFF]);
    bytes.extend_from_slice(&[0x08, 0x00, 0x50, 0x11, b'U', b'I', 4, 0, b'1', b'.', b'2', 0]);
    bytes.extend_from_slice(&[0xFE, 0xFF, 0x0D, 0xE0, 0, 0, 0, 0]);
    bytes.extend_from_slice(&[0xFE, 0xFF, 0x00, 0xE0, 0xFF, 0xFF, 0xFF, 0xFF]);
    bytes.extend_from_slice(&[0x08, 0x00, 0x50, 0x11, b'U', b'I', 4, 0, b'3', b'.', b'4', 0]);
    bytes.extend_from_slice(&[0xFE, 0xFF, 0x0D, 0xE0, 0, 0, 0, 0]);
    bytes.extend_from_slice(&[0xFE, 0xFF, 0xDD, 0xE0, 0, 0, 0, 0]);
    bytes
}

#[test]
fn explicit_stream_yields_modality_and_rows() {
    let mut bytes: Vec<u8> = Vec::new();
    bytes.extend_from_slice(&[0x08, 0x00, 0x60, 0x00, b'C', b'S', 8, 0]);
    bytes.extend_from_slice(b"CT      ");
    bytes.extend_from_slice(&[0x28, 0x00, 0x10, 0x00, b'U', b'S', 2, 0, 0x00, 0x02]);
    let dictionary = Dictionary::standard();
    let ds = decode_dataset(&bytes, explicit_le(), &dictionary).unwrap();
    assert_eq!(ds.len(), 2);
    let modality = get_by_name(&ds, &dictionary, "Modality").unwrap();
    assert_eq!(modality.vr, VR::CS);
    assert_eq!(modality.primitive_value().unwrap().to_text().unwrap(), "CT");
    let rows = get_by_name(&ds, &dictionary, "Rows").unwrap();
    assert_eq!(rows.vr, VR::US);
    assert_eq!(rows.primitive_value().unwrap().first_u16(), Some(512));
}

#[test]
fn implicit_stream_takes_the_representation_from_the_dictionary() {
    let bytes: Vec<u8> = vec![0x08, 0x00, 0x60, 0x00, 2, 0, 0, 0, b'C', b'T'];
    let dictionary = Dictionary::standard();
    let ds = decode_dataset(&bytes, implicit_le(), &dictionary).unwrap();
    let modality = ds.get(Tag { group: 0x0008, element: 0x0060 }).unwrap();
    assert_eq!(modality.vr, VR::CS);
    assert_eq!(modality.primitive_value().unwrap().to_text().unwrap(), "CT");
}

#[test]
fn implicit_stream_reads_an_unknown_tag_as_raw_bytes() {
    let bytes: Vec<u8> = vec![0x11, 0x11, 0x22, 0x22, 2, 0, 0, 0, 7, 9];
    let dictionary = Dictionary::standard();
    let ds = decode_dataset(&bytes, implicit_le(), &dictionary).unwrap();
    let e = ds.get(Tag { group: 0x1111, element: 0x2222 }).unwrap();
    assert_eq!(e.vr, VR::UN);
    assert_eq!(e.primitive_value(), Some(&PrimitiveValue::Bytes(vec![7, 9])));
}

#[test]
fn explicit_stream_reads_an_unknown_code_as_unknown() {
    let bytes: Vec<u8> =
        vec![0x08, 0x00, 0x60, 0x00, b'Z', b'Z', 0, 0, 2, 0, 0, 0, 1, 2];
    let dictionary = Dictionary::standard();
    let ds = decode_dataset(&bytes, explicit_le(), &dictionary).unwrap();
    let e = ds.get(Tag { group: 0x0008, element: 0x0060 }).unwrap();
    assert_eq!(e.vr, VR::UN);
    assert_eq!(e.primitive_value(), Some(&PrimitiveValue::Bytes(vec![1, 2])));
}

#[test]
fn undefined_length_sequence_yields_nested_items() {
    let bytes = sequence_stream();
    let dictionary = Dictionary::standard();
    let ds = decode_dataset(&bytes, explicit_le(), &dictionary).unwrap();
    let seq = ds.get(Tag { group: 0x0008, element: 0x1140 }).unwrap();
    assert_eq!(seq.vr, VR::SQ);
    let items = seq.items().unwrap();
    assert_eq!(items.len(), 2);
    let uid = Tag { group: 0x0008, element: 0x1150 };
    assert_eq!(text_of(&items[0], uid), "1.2");
    assert_eq!(text_of(&items[1], uid), "3.4");
}

#[test]
fn sequence_written_with_measured_lengths_holds_the_same_values() {
    let bytes = sequence_stream();
    let dictionary = Dictionary::standard();
    let ds = decode_dataset(&bytes, explicit_le(), &dictionary).unwrap();
    let measured = encode_dataset(&ds, explicit_le(), &LengthPolicy::defined()).unwrap();
    assert_ne!(measured, bytes);
    let mut expected: Vec<u8> = Vec::new();
    expected.extend_from_slice(&[0x08, 0x00, 0x40, 0x11, b'S', b'Q', 0, 0, 40, 0, 0, 0]);
    expected.extend_from_slice(&[0xFE, 0xFF, 0x00, 0xE0, 12, 0, 0, 0]);
    expected.extend_from_slice(&[0x08, 0x00, 0x50, 0x11, b'U', b'I', 4, 0, b'1', b'.', b'2', 0]);
    expected.extend_from_slice(&[0xFE, 0xFF, 0x00, 0xE0, 12, 0, 0, 0]);
    expected.extend_from_slice(&[0x08, 0x00, 0x50, 0x11, b'U', b'I', 4, 0, b'3', b'.', b'4', 0]);
    assert_eq!(measured, expected);
    let again = decode_dataset(&measured, explicit_le(), &dictionary).unwrap();
    let items = again.get(Tag { group: 0x0008, element: 0x1140 }).unwrap().items().unwrap();
    assert_eq!(items.len(), 2);
    let uid = Tag { group: 0x0008, element: 0x1150 };
    assert_eq!(text_of(&items[0], uid), "1.2");
    assert_eq!(text_of(&items[1], uid), "3.4");
    let undefined = encode_dataset(&again, explicit_le(), &LengthPolicy::undefined()).unwrap();
    assert_eq!(undefined, bytes);
}

fn encapsulated_stream() -> Vec<u8> {
    let mut bytes: Vec<u8> = Vec::new();
    bytes.extend_from_slice(&[0xE0, 0x7F, 0x10, 0x00, b'O', b'B', 0, 0, 0xFF, 0xFF, 0xFF, 0xFF]);
    bytes.extend_from_slice(&[0xFE, 0xFF, 0x00, 0xE0, 4, 0, 0, 0, 0, 0, 0, 0]);
    bytes.extend_from_slice(&[0xFE, 0xFF, 0x00, 0xE0, 2, 0, 0, 0, 0xA1, 0xA2]);
    bytes.extend_from_slice(&[0xFE, 0xFF, 0x00, 0xE0, 4, 0, 0, 0, 0xB1, 0xB2, 0xB3, 0xB4]);
    bytes.extend_from_slice(&[0xFE, 0xFF, 0x00, 0xE0, 2, 0, 0, 0, 0xC1, 0xC2]);
    bytes.extend_from_slice(&[0xFE, 0xFF, 0xDD, 0xE0, 0, 0, 0, 0]);
    bytes
}

#[test]
fn encapsulated_pixel_data_yields_fragments_and_offset_table() {
    let bytes = encapsulated_stream();
    let enc = Encoding { explicit_vr: true, big_endian: false, encapsulated: true };
    let dictionary = Dictionary::standard();
    let ds = decode_dataset(&bytes, enc, &dictionary).unwrap();
    let e = ds.get(Tag { group: 0x7FE0, element: 0x0010 }).unwrap();
    match &e.value {
        Value::PixelSequence(p) => {
            assert_eq!(p.offset_table, vec![0, 0, 0, 0]);
            assert_eq!(p.fragments.len(), 3);
            assert_eq!(p.fragments[0], vec![0xA1, 0xA2]);
            assert_eq!(p.fragments[1], vec![0xB1, 0xB2, 0xB3, 0xB4]);
            assert_eq!(p.fragments[2], vec![0xC1, 0xC2]);
        }
        _ => panic!("no fragments"),
    }
    assert_eq!(encode_dataset(&ds, enc, &LengthPolicy::defined()).unwrap(), bytes);
}

#[test]
fn pixel_access_without_a_codec_fails() {
    let bytes = encapsulated_stream();
    let enc = Encoding { explicit_vr: true, big_endian: false, encapsulated: true };
    let dictionary = Dictionary::standard();
    let ds = decode_dataset(&bytes, enc, &dictionary).unwrap();
    let ts = TransferSyntax::new("1.2.840.10008.1.2.4.50", true, false, false);
    assert!(ts.encoding().encapsulated);
    let codecs = CodecRegistry::new();
    assert_eq!(pixel_data(&ds, &ts, &codecs), Err(PixelAccessError::CodecUnavailable));
}

#[test]
fn undefined_length_pixel_data_is_refused_under_a_native_syntax() {
    let bytes = encapsulated_stream();
    let dictionary = Dictionary::standard();
    let err = decode_dataset(&bytes, explicit_le(), &dictionary).unwrap_err();
    assert_eq!(err.kind, DecodeErrorKind::InvalidElementLength);
    assert_eq!(err.offset, 0);
}

#[test]
fn truncated_value_reports_where_the_shortfall_is() {
    let mut bytes: Vec<u8> = Vec::new();
    bytes.extend_from_slice(&[0x08, 0x00, 0x60, 0x00, b'C', b'S', 10, 0]);
    bytes.extend_from_slice(b"CT    ");
    let dictionary = Dictionary::standard();
    let err = decode_dataset(&bytes, explicit_le(), &dictionary).unwrap_err();
    assert_eq!(err.kind, DecodeErrorKind::UnexpectedEof);
    assert_eq!(err.offset, 8);
}

fn private_dictionary() -> Dictionary {
    let mut dictionary = Dictionary::standard();
    dictionary.register_private(PrivateEntry {
        creator: "ACME",
        group: 0x0009,
        element: 0x01,
        name: "AcmeCount",
        vr: VR::US,
        multiplicity: Multiplicity { min: 1, max: Some(1) },
    });
    dictionary
}

#[test]
fn private_tag_resolves_through_its_creator() {
    let mut bytes: Vec<u8> = Vec::new();
    bytes.extend_from_slice(&[0x09, 0x00, 0x10, 0x00, 4, 0, 0, 0]);
    bytes.extend_from_slice(b"ACME");
    bytes.extend_from_slice(&[0x09, 0x00, 0x01, 0x10, 2, 0, 0, 0, 0x07, 0x00]);
    let dictionary = private_dictionary();
    let ds = decode_dataset(&bytes, implicit_le(), &dictionary).unwrap();
    let creator = ds.get(Tag { group: 0x0009, element: 0x0010 }).unwrap();
    assert_eq!(creator.vr, VR::LO);
    let tag = Tag { group: 0x0009, element: 0x1001 };
    let e = ds.get(tag).unwrap();
    assert_eq!(e.vr, VR::US);
    assert_eq!(e.primitive_value().unwrap().first_u16(), Some(7));
    let entry = dictionary.lookup(tag, Dictionary::creator_of(&ds, tag)).unwrap();
    assert_eq!(entry.name, "AcmeCount");
    assert_eq!(entry.vr, VR::US);
}

#[test]
fn private_tag_without_its_creator_falls_back_to_unknown() {
    let bytes: Vec<u8> = vec![0x09, 0x00, 0x01, 0x10, 2, 0, 0, 0, 0x07, 0x00];
    let dictionary = private_dictionary();
    let ds = decode_dataset(&bytes, implicit_le(), &dictionary).unwrap();
    let tag = Tag { group: 0x0009, element: 0x1001 };
    let e = ds.get(tag).unwrap();
    assert_eq!(e.vr, VR::UN);
    assert_eq!(e.primitive_value(), Some(&PrimitiveValue::Bytes(vec![7, 0])));
    assert!(Dictionary::creator_of(&ds, tag).is_none());
    assert!(dictionary.lookup(tag, None).is_none());
}

#[test]
fn private_tag_of_another_creator_falls_back_to_unknown() {
    let mut bytes: Vec<u8> = Vec::new();
    bytes.extend_from_slice(&[0x09, 0x00, 0x10, 0x00, 6, 0, 0, 0]);
    bytes.extend_from_slice(b"OTHER ");
    bytes.extend_from_slice(&[0x09, 0x00, 0x01, 0x10, 2, 0, 0, 0, 0x07, 0x00]);
    let dictionary = private_dictionary();
    let ds = decode_dataset(&bytes, implicit_le(), &dictionary).unwrap();
    let e = ds.get(Tag { group: 0x0009, element: 0x1001 }).unwrap();
    assert_eq!(e.vr, VR::UN);
}
