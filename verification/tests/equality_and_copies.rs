use dicom_engine::element::DataElement;
use dicom_engine::element::DataSet;
use dicom_engine::element::PixelSequence;
use dicom_engine::element::Value;
use dicom_engine::equality::copy_dataset;
use dicom_engine::equality::copy_element;
use dicom_engine::equality::copy_primitive;
use dicom_engine::equality::copy_strings;
use dicom_engine::equality::dataset_is_well_formed;
use dicom_engine::equality::element_is_well_formed;
use dicom_engine::equality::same_dataset;
use dicom_engine::equality::same_element;
use dicom_engine::equality::same_primitive;
use dicom_engine::equality::same_strings;
use dicom_engine::equality::same_value;
use dicom_engine::tag::Tag;
use dicom_engine::value::PrimitiveValue;
use dicom_engine::vr::VR;

fn tag(group: u16, element: u16) -> Tag {
    Tag { group, element }
}

fn nested(leaf: u16) -> DataSet {
    let mut inner = DataSet::new();
    inner.put(DataElement::primitive(tag(0x0028, 0x0010), VR::US, PrimitiveValue::from_u16(leaf)));
    let mut item = DataSet::new();
    item.put(DataElement::new(tag(0x0008, 0x1140), VR::SQ, Value::Sequence(vec![inner])));
    let mut ds = DataSet::new();
    ds.put(DataElement::primitive(
        tag(0x0008, 0x0060),
        VR::CS,
        PrimitiveValue::from_text("CT").unwrap(),
    ));
    ds.put(DataElement::new(
        tag(0x0008, 0x1140),
        VR::SQ,
        Value::Sequence(vec![item, DataSet::new()]),
    ));
    ds.put(DataElement::new(
        tag(0x7FE0, 0x0010),
        VR::OB,
        Value::PixelSequence(PixelSequence {
            offset_table: vec![0, 0, 0, 0],
            fragments: vec![vec![1, 2], vec![3, 4]],
        }),
    ));
    ds
}

#[test]
fn primitive_values_are_compared_by_kind_and_content() {
    let all = [
        PrimitiveValue::Strings(vec![b"a".to_vec(), b"b".to_vec()]),
        PrimitiveValue::Strings(vec![b"a".to_vec(), b"c".to_vec()]),
        PrimitiveValue::Strings(vec![b"a".to_vec()]),
        PrimitiveValue::Text(b"a".to_vec()),
        PrimitiveValue::Bytes(b"a".to_vec()),
        PrimitiveValue::U16(vec![1, 2]),
        PrimitiveValue::U16(vec![1, 3]),
        PrimitiveValue::I16(vec![1, 2]),
        PrimitiveValue::U32(vec![1, 2]),
        PrimitiveValue::I32(vec![1, 2]),
        PrimitiveValue::U64(vec![1, 2]),
        PrimitiveValue::I64(vec![1, 2]),
        PrimitiveValue::F32(vec![1, 2]),
        PrimitiveValue::F64(vec![1, 2]),
        PrimitiveValue::Tags(vec![tag(1, 2)]),
        PrimitiveValue::Tags(vec![tag(1, 3)]),
        PrimitiveValue::Tags(vec![]),
    ];
    for (i, a) in all.iter().enumerate() {
        for (j, b) in all.iter().enumerate() {
            assert_eq!(same_primitive(a, b), i == j);
            assert_eq!(same_primitive(a, b), a == b);
        }
        assert!(same_primitive(a, &copy_primitive(a)));
        assert_eq!(&copy_primitive(a), a);
    }
}

#[test]
fn byte_string_lists_are_compared_and_copied() {
    let a = vec![b"x".to_vec(), b"".to_vec()];
    let b = vec![b"x".to_vec(), b"y".to_vec()];
    assert!(same_strings(&a, &a));
    assert!(!same_strings(&a, &b));
    assert!(!same_strings(&a, &a[..1].to_vec()));
    assert_eq!(copy_strings(&b), b);
}

#[test]
fn nested_data_sets_are_compared_item_for_item() {
    assert!(same_dataset(&nested(1), &nested(1)));
    assert!(!same_dataset(&nested(1), &nested(2)));
    let mut shorter = nested(1);
    shorter.remove(tag(0x0008, 0x0060));
    assert!(!same_dataset(&nested(1), &shorter));
    let mut other_fragment = nested(1);
    other_fragment.put(DataElement::new(
        tag(0x7FE0, 0x0010),
        VR::OB,
        Value::PixelSequence(PixelSequence {
            offset_table: vec![0, 0, 0, 0],
            fragments: vec![vec![1, 2], vec![3, 5]],
        }),
    ));
    assert!(!same_dataset(&nested(1), &other_fragment));
    let mut other_representation = nested(1);
    other_representation.put(DataElement::primitive(
        tag(0x0008, 0x0060),
        VR::SH,
        PrimitiveValue::from_text("CT").unwrap(),
    ));
    assert!(!same_dataset(&nested(1), &other_representation));
}

#[test]
fn values_of_different_shapes_differ() {
    let empty = Value::Empty;
    let items = Value::Sequence(vec![]);
    let one_item = Value::Sequence(vec![DataSet::new()]);
    let fragments = Value::PixelSequence(PixelSequence { offset_table: vec![], fragments: vec![] });
    let number = Value::Primitive(PrimitiveValue::from_u16(1));
    let all = [&empty, &items, &one_item, &fragments, &number];
    for (i, a) in all.iter().enumerate() {
        for (j, b) in all.iter().enumerate() {
            assert_eq!(same_value(a, b), i == j);
        }
    }
}

#[test]
fn copies_are_the_same_as_what_was_copied() {
    let ds = nested(7);
    let copy = copy_dataset(&ds);
    assert!(same_dataset(&ds, &copy));
    let e = ds.get(tag(0x0008, 0x1140)).unwrap();
    let e_copy = copy_element(e);
    assert!(same_element(e, &e_copy));
    assert_eq!(e_copy.items().unwrap().len(), 2);
    let mut changed = copy_dataset(&ds);
    changed.put(DataElement::empty(tag(0x0008, 0x0060), VR::CS));
    assert!(!same_dataset(&ds, &changed));
    assert!(same_dataset(&ds, &copy));
}

#[test]
fn well_formed_data_sets_pass_the_check() {
    let ds = nested(1);
    assert!(ds.is_strictly_ordered());
    assert!(dataset_is_well_formed(&ds));
    assert!(dataset_is_well_formed(&DataSet::new()));
    let mut unordered = nested(1);
    unordered.elements.swap(0, 1);
    assert!(!unordered.is_strictly_ordered());
    assert!(!dataset_is_well_formed(&unordered));
    let mut twice = DataSet::new();
    twice.elements.push(DataElement::empty(tag(0x0008, 0x0060), VR::CS));
    twice.elements.push(DataElement::empty(tag(0x0008, 0x0060), VR::CS));
    assert!(!twice.is_strictly_ordered());
}

#[test]
fn a_wrong_kind_anywhere_fails_the_check() {
    let wrong = DataElement::primitive(tag(0x0028, 0x0010), VR::US, PrimitiveValue::Bytes(vec![1, 2]));
    assert!(!element_is_well_formed(&wrong));
    let mut inner = DataSet::new();
    inner.put(wrong);
    let mut item = DataSet::new();
    item.put(DataElement::new(tag(0x0008, 0x1140), VR::SQ, Value::Sequence(vec![inner])));
    let outer = DataElement::new(tag(0x0008, 0x1140), VR::SQ, Value::Sequence(vec![DataSet::new(), item]));
    assert_eq!(outer.kind_error(), None);
    assert!(!element_is_well_formed(&outer));
    let mut ds = DataSet::new();
    ds.put(outer);
    assert!(ds.is_strictly_ordered());
    assert!(!dataset_is_well_formed(&ds));
    let good = DataElement::new(tag(0x0008, 0x1140), VR::SQ, Value::Sequence(vec![nested(3)]));
    assert!(element_is_well_formed(&good));
}
