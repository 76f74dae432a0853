use dicom_engine::dictionary::Dictionary;
use dicom_engine::element::DataElement;
use dicom_engine::element::DataSet;
use dicom_engine::encode::LengthPolicy;
use dicom_engine::error::DecodeErrorKind;
use dicom_engine::meta::FileMeta;
use dicom_engine::meta::FileMetaTable;
use dicom_engine::meta::MetaError;
use dicom_engine::object::has_magic;
use dicom_engine::object::FileError;
use dicom_engine::object::FileObject;
use dicom_engine::tag::Tag;
use dicom_engine::transfer_syntax::TransferSyntax;
use dicom_engine::transfer_syntax::TransferSyntaxRegistry;
use dicom_engine::value::PrimitiveValue;
use dicom_engine::vr::VR;

fn tag(group: u16, element: u16) -> Tag {
    Tag { group, element }
}

fn uid_element(element: u16, uid: &[u8]) -> Vec<u8> {
    let mut padded = uid.to_vec();
    if padded.len() % 2 == 1 {
        padded.push(0);
    }
    let mut out: Vec<u8> = vec![0x02, 0x00, (element & 0xFF) as u8, (element >> 8) as u8, b'U', b'I'];
    out.push(padded.len() as u8);
    out.push(0);
    out.extend_from_slice(&padded);
    out
}

fn explicit_le() -> TransferSyntax {
    TransferSyntax::new("1.2.840.10008.1.2.1", true, false, false)
}

fn small_table() -> FileMetaTable {
    FileMetaTable::build(&explicit_le(), b"1.2", b"3.4", b"9.9")
}

fn small_table_bytes() -> Vec<u8> {
    let mut expected: Vec<u8> = vec![0x02, 0x00, 0x00, 0x00, b'U', b'L', 4, 0, 78, 0, 0, 0];
    expected.extend_from_slice(&[0x02, 0x00, 0x01, 0x00, b'O', b'B', 0, 0, 2, 0, 0, 0, 0, 1]);
    expected.extend_from_slice(&uid_element(0x0002, b"1.2"));
    expected.extend_from_slice(&uid_element(0x0003, b"3.4"));
    expected.extend_from_slice(&uid_element(0x0010, b"1.2.840.10008.1.2.1"));
    expected.extend_from_slice(&uid_element(0x0012, b"9.9"));
    expected
}

#[test]
fn built_table_is_written_with_its_group_length() {
    let table = small_table();
    assert!(table.is_complete());
    assert_eq!(table.elements.len(), 5);
    assert_eq!(table.encode().unwrap(), small_table_bytes());
}

#[test]
fn written_table_is_resolved() {
    let mut bytes = small_table_bytes();
    let meta_len = bytes.len();
    bytes.extend_from_slice(&[0x08, 0x00, 0x60, 0x00, b'C', b'S', 2, 0, b'C', b'T']);
    let registry = TransferSyntaxRegistry::new();
    let dictionary = Dictionary::standard();
    let table = FileMetaTable::resolve_at(&bytes, 0, &registry, &dictionary).unwrap();
    assert_eq!(table.end, meta_len);
    assert_eq!(table.transfer_syntax, explicit_le());
    assert_eq!(table.media_storage_sop_class_uid, b"1.2".to_vec());
    assert_eq!(table.media_storage_sop_instance_uid, b"3.4".to_vec());
    assert_eq!(table.implementation_class_uid, b"9.9".to_vec());
    assert_eq!(table.elements.len(), 6);
    let length = table.elements.get(tag(0x0002, 0x0000)).unwrap();
    assert_eq!(length.primitive_value().unwrap().first_u32(), Some(78));
    assert_eq!(table.encode().unwrap(), small_table_bytes());
}

#[test]
fn state_goes_from_unparsed_to_resolved() {
    let registry = TransferSyntaxRegistry::new();
    let dictionary = Dictionary::standard();
    let unparsed = FileMeta::unparsed(small_table_bytes());
    assert!(!unparsed.is_resolved());
    assert!(unparsed.table().is_none());
    let resolved = unparsed.resolve(&registry, &dictionary).unwrap();
    assert!(resolved.is_resolved());
    assert_eq!(resolved.table().unwrap().transfer_syntax, explicit_le());
    let again = resolved.resolve(&TransferSyntaxRegistry { entries: Vec::new() }, &dictionary).unwrap();
    assert!(again.is_resolved());
    assert_eq!(again.table().unwrap().media_storage_sop_instance_uid, b"3.4".to_vec());
}

fn missing(bytes: Vec<u8>) -> Tag {
    let registry = TransferSyntaxRegistry::new();
    let dictionary = Dictionary::standard();
    match FileMeta::unparsed(bytes).resolve(&registry, &dictionary) {
        Err(MetaError::MissingRequiredMetaElement(t)) => t,
        _ => panic!("expected a missing element"),
    }
}

#[test]
fn table_without_a_required_element_is_refused() {
    let mut no_syntax = uid_element(0x0002, b"1.2");
    no_syntax.extend_from_slice(&uid_element(0x0003, b"3.4"));
    assert_eq!(missing(no_syntax), tag(0x0002, 0x0010));
    let mut no_class = uid_element(0x0003, b"3.4");
    no_class.extend_from_slice(&uid_element(0x0010, b"1.2.840.10008.1.2.1"));
    assert_eq!(missing(no_class), tag(0x0002, 0x0002));
    let mut no_instance = uid_element(0x0002, b"1.2");
    no_instance.extend_from_slice(&uid_element(0x0010, b"1.2.840.10008.1.2.1"));
    assert_eq!(missing(no_instance), tag(0x0002, 0x0003));
    assert_eq!(missing(Vec::new()), tag(0x0002, 0x0010));
}

#[test]
fn table_without_an_implementation_class_resolves_but_is_not_complete() {
    let mut bytes = uid_element(0x0002, b"1.2");
    bytes.extend_from_slice(&uid_element(0x0003, b"3.4"));
    bytes.extend_from_slice(&uid_element(0x0010, b"1.2.840.10008.1.2"));
    let registry = TransferSyntaxRegistry::new();
    let dictionary = Dictionary::standard();
    let table = FileMetaTable::resolve_at(&bytes, 0, &registry, &dictionary).unwrap();
    assert!(!table.is_complete());
    assert!(!table.transfer_syntax.explicit_vr);
    assert_eq!(table.end, bytes.len());
}

#[test]
fn unsupported_syntax_leaves_the_fields_readable() {
    let mut bytes = uid_element(0x0002, b"1.2");
    bytes.extend_from_slice(&uid_element(0x0003, b"3.4"));
    bytes.extend_from_slice(&uid_element(0x0010, b"1.2.840.10008.1.2.4.50"));
    let registry = TransferSyntaxRegistry::new();
    let dictionary = Dictionary::standard();
    match FileMetaTable::resolve_at(&bytes, 0, &registry, &dictionary) {
        Err(MetaError::UnsupportedTransferSyntax { uid, elements }) => {
            assert_eq!(uid, b"1.2.840.10008.1.2.4.50".to_vec());
            assert_eq!(elements.len(), 3);
            assert_eq!(elements.first_string(tag(0x0002, 0x0003)), Some(&b"3.4"[..]));
        }
        _ => panic!("expected an unsupported transfer syntax"),
    }
}

#[test]
fn malformed_table_reports_the_decoding_error() {
    let mut bytes = uid_element(0x0002, b"1.2");
    bytes.extend_from_slice(&[0x02, 0x00, 0x10, 0x00, b'U', b'I', 20, 0, b'1']);
    let registry = TransferSyntaxRegistry::new();
    let dictionary = Dictionary::standard();
    match FileMetaTable::resolve_at(&bytes, 0, &registry, &dictionary) {
        Err(MetaError::Malformed(e)) => {
            assert_eq!(e.kind, DecodeErrorKind::UnexpectedEof);
            assert_eq!(e.offset, 20);
        }
        _ => panic!("expected a malformed table"),
    }
}

fn sample_object(syntax: &TransferSyntax) -> FileObject {
    let mut dataset = DataSet::new();
    dataset.put(DataElement::primitive(
        tag(0x0008, 0x0060),
        VR::CS,
        PrimitiveValue::from_text("CT").unwrap(),
    ));
    dataset.put(DataElement::primitive(tag(0x0028, 0x0010), VR::US, PrimitiveValue::from_u16(512)));
    FileObject { meta: FileMetaTable::build(syntax, b"1.2", b"3.4", b"9.9"), dataset }
}

#[test]
fn file_is_written_behind_a_preamble_and_read_back() {
    let obj = sample_object(&explicit_le());
    let bytes = obj.encode(&LengthPolicy::defined()).unwrap();
    assert!(has_magic(&bytes));
    assert!(bytes[..128].iter().all(|b| *b == 0));
    assert_eq!(&bytes[128..132], b"DICM");
    assert_eq!(&bytes[132..222], &small_table_bytes()[..]);
    let mut tail: Vec<u8> = vec![0x08, 0x00, 0x60, 0x00, b'C', b'S', 2, 0, b'C', b'T'];
    tail.extend_from_slice(&[0x28, 0x00, 0x10, 0x00, b'U', b'S', 2, 0, 0x00, 0x02]);
    assert_eq!(&bytes[222..], &tail[..]);
    let registry = TransferSyntaxRegistry::new();
    let dictionary = Dictionary::standard();
    let back = FileObject::decode(&bytes, &registry, &dictionary).unwrap();
    assert_eq!(back.meta.end, 222);
    assert_eq!(back.meta.transfer_syntax, explicit_le());
    assert_eq!(back.dataset.len(), 2);
    let rows = back.get_by_name(&dictionary, "Rows").unwrap();
    assert_eq!(rows.primitive_value().unwrap().first_u16(), Some(512));
    assert_eq!(back.get(tag(0x0008, 0x0060)).unwrap().vr, VR::CS);
}

#[test]
fn data_set_follows_the_syntax_of_the_table() {
    let implicit = TransferSyntax::new("1.2.840.10008.1.2", false, false, false);
    let obj = sample_object(&implicit);
    let bytes = obj.encode(&LengthPolicy::defined()).unwrap();
    let mut tail: Vec<u8> = vec![0x08, 0x00, 0x60, 0x00, 2, 0, 0, 0, b'C', b'T'];
    tail.extend_from_slice(&[0x28, 0x00, 0x10, 0x00, 2, 0, 0, 0, 0x00, 0x02]);
    assert_eq!(&bytes[bytes.len() - 20..], &tail[..]);
    let registry = TransferSyntaxRegistry::new();
    let dictionary = Dictionary::standard();
    let back = FileObject::decode(&bytes, &registry, &dictionary).unwrap();
    assert!(!back.meta.transfer_syntax.explicit_vr);
    assert_eq!(back.get(tag(0x0028, 0x0010)).unwrap().vr, VR::US);
}

#[test]
fn stream_without_the_magic_code_is_no_file() {
    let registry = TransferSyntaxRegistry::new();
    let dictionary = Dictionary::standard();
    assert!(matches!(
        FileObject::decode(&[0u8; 131], &registry, &dictionary),
        Err(FileError::NotDicom)
    ));
    let mut bytes = vec![0u8; 128];
    bytes.extend_from_slice(b"DICN");
    assert!(!has_magic(&bytes));
    assert!(matches!(FileObject::decode(&bytes, &registry, &dictionary), Err(FileError::NotDicom)));
}

#[test]
fn file_errors_say_which_part_failed() {
    let registry = TransferSyntaxRegistry::new();
    let dictionary = Dictionary::standard();
    let mut bytes = vec![0u8; 128];
    bytes.extend_from_slice(b"DICM");
    assert!(matches!(
        FileObject::decode(&bytes, &registry, &dictionary),
        Err(FileError::Meta(MetaError::MissingRequiredMetaElement(_)))
    ));
    let mut truncated = sample_object(&explicit_le()).encode(&LengthPolicy::defined()).unwrap();
    truncated.pop();
    match FileObject::decode(&truncated, &registry, &dictionary) {
        Err(FileError::DataSet(e)) => {
            assert_eq!(e.kind, DecodeErrorKind::UnexpectedEof);
            assert_eq!(e.offset, 240);
        }
        _ => panic!("expected a data set error"),
    }
}

#[test]
fn deflated_data_set_is_handed_back_with_its_table() {
    let deflated = TransferSyntax::new("1.2.840.10008.1.2.1.99", true, false, true);
    let mut registry = TransferSyntaxRegistry::new();
    assert!(registry.register(deflated.duplicate()));
    let dictionary = Dictionary::standard();
    let bytes = sample_object(&deflated).encode(&LengthPolicy::defined()).unwrap();
    match FileObject::decode(&bytes, &registry, &dictionary) {
        Err(FileError::Deflated(table)) => {
            assert!(table.transfer_syntax.deflated);
            assert_eq!(&bytes[table.end..table.end + 4], &[0x08, 0x00, 0x60, 0x00]);
        }
        _ => panic!("expected a deflated data set"),
    }
}

#[test]
fn object_put_checks_the_kind() {
    let mut obj = sample_object(&explicit_le());
    let bad = DataElement::primitive(tag(0x0028, 0x0011), VR::US, PrimitiveValue::Bytes(vec![1, 2]));
    assert!(obj.put(bad).is_err());
    assert_eq!(obj.dataset.len(), 2);
    let good = DataElement::primitive(tag(0x0028, 0x0011), VR::US, PrimitiveValue::from_u16(256));
    assert_eq!(obj.put(good), Ok(()));
    assert_eq!(obj.dataset.len(), 3);
    let pixels =
        DataElement::primitive(tag(0x7FE0, 0x0010), VR::OW, PrimitiveValue::from_bytes(&[1, 2]));
    assert_eq!(obj.put(pixels), Ok(()));
    let written = obj.encode(&LengthPolicy::defined()).unwrap();
    assert_eq!(
        &written[written.len() - 14..],
        &[0xE0, 0x7F, 0x10, 0x00, 0x4F, 0x57, 0, 0, 2, 0, 0, 0, 1, 2]
    );
    assert!(obj.remove(tag(0x7FE0, 0x0010)).is_some());
    let removed = obj.remove(tag(0x0028, 0x0010)).unwrap();
    assert_eq!(removed.primitive_value().unwrap().first_u16(), Some(512));
    assert!(obj.get(tag(0x0028, 0x0010)).is_none());
}

#[test]
fn file_decoding_flags_odd_lengths_in_table_and_data_set() {
    let mut bytes = vec![0u8; 128];
    bytes.extend_from_slice(b"DICM");
    bytes.extend_from_slice(&[0x02, 0x00, 0x02, 0x00, b'U', b'I', 3, 0, b'1', b'.', b'2']);
    bytes.extend_from_slice(&uid_element(0x0003, b"3.4"));
    bytes.extend_from_slice(&uid_element(0x0010, b"1.2.840.10008.1.2.1"));
    bytes.extend_from_slice(&[0x08, 0x00, 0x60, 0x00, b'C', b'S', 2, 0, b'C', b'T']);
    bytes.extend_from_slice(&[0x10, 0x00, 0x20, 0x00, b'L', b'O', 1, 0, b'7']);
    let registry = TransferSyntaxRegistry::new();
    let dictionary = Dictionary::standard();
    let (obj, flagged) = FileObject::decode_flagged(&bytes, &registry, &dictionary).unwrap();
    assert_eq!(flagged, vec![tag(0x0002, 0x0002), tag(0x0010, 0x0020)]);
    assert_eq!(obj.meta.media_storage_sop_class_uid, b"1.2".to_vec());
    assert_eq!(obj.dataset.len(), 2);
    let plain = FileObject::decode(&bytes, &registry, &dictionary).unwrap();
    assert_eq!(plain.dataset.len(), 2);
    let mut in_table = Vec::new();
    let table =
        FileMetaTable::resolve_flagged_at(&bytes, 132, &registry, &dictionary, &mut in_table).unwrap();
    assert_eq!(in_table, vec![tag(0x0002, 0x0002)]);
    assert_eq!(table.end, bytes.len() - 19);
    let written = sample_object(&explicit_le()).encode(&LengthPolicy::defined()).unwrap();
    let (_, none) = FileObject::decode_flagged(&written, &registry, &dictionary).unwrap();
    assert!(none.is_empty());
}
