use dicom_engine::vr::VrInfo;
use dicom_engine::vr::ValueKind;
use dicom_engine::vr::UNDEFINED_LENGTH;
use dicom_engine::vr::VR;

const ALL: [VR; 34] = [
    VR::AE, VR::AS, VR::AT, VR::CS, VR::DA, VR::DS, VR::DT, VR::FD, VR::FL, VR::IS, VR::LO, VR::LT,
    VR::OB, VR::OD, VR::OF, VR::OL, VR::OV, VR::OW, VR::PN, VR::SH, VR::SL, VR::SQ, VR::SS, VR::ST,
    VR::SV, VR::TM, VR::UC, VR::UI, VR::UL, VR::UN, VR::UR, VR::US, VR::UT, VR::UV,
];

#[test]
fn every_code_names_its_representation() {
    for vr in ALL {
        let (a, b) = vr.code();
        assert_eq!(VR::from_code(a, b), vr);
    }
    assert_eq!(VR::CS.code(), (b'C', b'S'));
    assert_eq!(VR::from_code(b'U', b'S'), VR::US);
}

#[test]
fn unknown_code_is_read_as_unknown() {
    assert_eq!(VR::from_code(b'Z', b'Z'), VR::UN);
    assert_eq!(VR::from_code(b'c', b's'), VR::UN);
    assert_eq!(VR::from_code(0, 0), VR::UN);
    let info = VR::UN.describe();
    assert_eq!(info.length_field_width, 4);
    assert_eq!(info.value_kind, ValueKind::Bytes);
}

#[test]
fn catalog_describes_a_short_string() {
    assert_eq!(
        VR::CS.describe(),
        VrInfo {
            length_field_width: 2,
            allows_undefined_length: false,
            swap_unit: 1,
            value_kind: ValueKind::Strings,
        }
    );
}

#[test]
fn catalog_describes_numbers() {
    assert_eq!(
        VR::US.describe(),
        VrInfo {
            length_field_width: 2,
            allows_undefined_length: false,
            swap_unit: 2,
            value_kind: ValueKind::U16,
        }
    );
    assert_eq!(VR::SL.describe().swap_unit, 4);
    assert_eq!(VR::SL.describe().value_kind, ValueKind::I32);
    assert_eq!(VR::FD.describe().swap_unit, 8);
    assert_eq!(VR::FD.describe().value_kind, ValueKind::F64);
    assert_eq!(VR::AT.describe().swap_unit, 2);
    assert_eq!(VR::AT.describe().value_kind, ValueKind::Tags);
    assert_eq!(VR::OV.describe().length_field_width, 4);
    assert_eq!(VR::OV.describe().value_kind, ValueKind::U64);
}

#[test]
fn catalog_describes_the_sequence_and_pixel_representations() {
    assert_eq!(
        VR::SQ.describe(),
        VrInfo {
            length_field_width: 4,
            allows_undefined_length: true,
            swap_unit: 1,
            value_kind: ValueKind::Sequence,
        }
    );
    assert!(VR::OB.describe().allows_undefined_length);
    assert!(VR::OW.describe().allows_undefined_length);
    assert_eq!(
        VR::OW.describe(),
        VrInfo {
            length_field_width: 4,
            allows_undefined_length: true,
            swap_unit: 2,
            value_kind: ValueKind::Bytes,
        }
    );
    assert_eq!(VR::OB.describe().swap_unit, 1);
    assert_eq!(VR::OB.describe().value_kind, ValueKind::Bytes);
    assert_eq!(VR::UN.describe().swap_unit, 1);
    assert!(!VR::UN.describe().allows_undefined_length);
    assert_eq!(UNDEFINED_LENGTH, 0xFFFF_FFFF);
}

#[test]
fn long_length_fields_belong_to_the_long_representations() {
    let long = [
        VR::OB, VR::OD, VR::OF, VR::OL, VR::OV, VR::OW, VR::SQ, VR::SV, VR::UC, VR::UN, VR::UR,
        VR::UT, VR::UV,
    ];
    for vr in ALL {
        let expected = if long.contains(&vr) { 4 } else { 2 };
        assert_eq!(vr.describe().length_field_width, expected);
        assert_eq!(vr.has_long_length(), expected == 4);
        assert_eq!(vr.describe().swap_unit, vr.swap_unit());
    }
}

#[test]
fn swap_units_follow_the_representation() {
    let two = [VR::AT, VR::OW, VR::SS, VR::US];
    let four = [VR::FL, VR::OF, VR::OL, VR::SL, VR::UL];
    let eight = [VR::FD, VR::OD, VR::OV, VR::SV, VR::UV];
    for vr in ALL {
        let expected = if two.contains(&vr) {
            2
        } else if four.contains(&vr) {
            4
        } else if eight.contains(&vr) {
            8
        } else {
            1
        };
        assert_eq!(vr.swap_unit(), expected);
    }
}
