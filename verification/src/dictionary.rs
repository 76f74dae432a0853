//! The data dictionary: from a tag to its name, its value representation
//! and its multiplicity, with the private tags that a private creator
//! registers.

use crate::element::position_of;
use crate::element::DataSet;
use crate::element::ElementModel;
use crate::element::Value;
use crate::element::ValueModel;
use crate::tag::Tag;
use crate::text::bytes_equal;
use crate::value::PrimitiveModel;
use crate::value::PrimitiveValue;
use crate::vr::VR;
use vstd::prelude::*;
use vstd::string::StringSliceAdditionalSpecFns;

verus! {

/// How many values an element may hold: at least `min`, and at most `max`
/// where there is a limit.
#[derive(Clone, Copy, Debug, PartialEq, Eq)]
pub struct Multiplicity {
    pub min: u32,
    pub max: Option<u32>,
}

/// What the dictionary knows of a tag.
#[derive(Clone, Copy, Debug)]
pub struct DictEntry {
    pub tag: Tag,
    pub name: &'static str,
    pub vr: VR,
    pub multiplicity: Multiplicity,
}

/// What a private creator registers for one of its elements: the tag is any
/// tag of group `group` whose element number ends in `element`, in the
/// block that the creator reserved.
#[derive(Clone, Copy, Debug)]
pub struct PrivateEntry {
    pub creator: &'static str,
    pub group: u16,
    pub element: u8,
    pub name: &'static str,
    pub vr: VR,
    pub multiplicity: Multiplicity,
}

/// The data dictionary: the standard table, the entries added to it, and
/// the entries of private creators.
#[derive(Debug)]
pub struct Dictionary {
    pub entries: Vec<DictEntry>,
    pub private_entries: Vec<PrivateEntry>,
}

/// The mathematical model of a dictionary.
pub ghost struct DictionaryModel {
    pub entries: Seq<DictEntry>,
    pub private_entries: Seq<PrivateEntry>,
}

impl View for Dictionary {
    type V = DictionaryModel;

    open spec fn view(&self) -> DictionaryModel {
        DictionaryModel { entries: self.entries@, private_entries: self.private_entries@ }
    }
}

/// The entry of a public tag.
pub open spec fn spec_entry(
    group: u16,
    element: u16,
    name: &'static str,
    vr: VR,
    min: u32,
    max: Option<u32>,
) -> DictEntry {
    DictEntry { tag: Tag { group, element }, name, vr, multiplicity: Multiplicity { min, max } }
}

/// The standard table, part 1: file meta information and identification.
pub open spec fn standard_part_1() -> Seq<DictEntry> {
    seq![
        spec_entry(0x0002, 0x0000, "FileMetaInformationGroupLength", VR::UL, 1, Some(1)),
        spec_entry(0x0002, 0x0001, "FileMetaInformationVersion", VR::OB, 1, Some(1)),
        spec_entry(0x0002, 0x0002, "MediaStorageSOPClassUID", VR::UI, 1, Some(1)),
        spec_entry(0x0002, 0x0003, "MediaStorageSOPInstanceUID", VR::UI, 1, Some(1)),
        spec_entry(0x0002, 0x0010, "TransferSyntaxUID", VR::UI, 1, Some(1)),
        spec_entry(0x0002, 0x0012, "ImplementationClassUID", VR::UI, 1, Some(1)),
        spec_entry(0x0002, 0x0013, "ImplementationVersionName", VR::SH, 1, Some(1)),
        spec_entry(0x0002, 0x0016, "SourceApplicationEntityTitle", VR::AE, 1, Some(1)),
        spec_entry(0x0008, 0x0005, "SpecificCharacterSet", VR::CS, 1, None),
        spec_entry(0x0008, 0x0008, "ImageType", VR::CS, 2, None),
        spec_entry(0x0008, 0x0012, "InstanceCreationDate", VR::DA, 1, Some(1)),
        spec_entry(0x0008, 0x0013, "InstanceCreationTime", VR::TM, 1, Some(1)),
        spec_entry(0x0008, 0x0016, "SOPClassUID", VR::UI, 1, Some(1)),
        spec_entry(0x0008, 0x0018, "SOPInstanceUID", VR::UI, 1, Some(1)),
        spec_entry(0x0008, 0x0020, "StudyDate", VR::DA, 1, Some(1)),
        spec_entry(0x0008, 0x0021, "SeriesDate", VR::DA, 1, Some(1)),
        spec_entry(0x0008, 0x0022, "AcquisitionDate", VR::DA, 1, Some(1)),
        spec_entry(0x0008, 0x0023, "ContentDate", VR::DA, 1, Some(1)),
        spec_entry(0x0008, 0x0030, "StudyTime", VR::TM, 1, Some(1)),
        spec_entry(0x0008, 0x0031, "SeriesTime", VR::TM, 1, Some(1)),
        spec_entry(0x0008, 0x0032, "AcquisitionTime", VR::TM, 1, Some(1)),
        spec_entry(0x0008, 0x0033, "ContentTime", VR::TM, 1, Some(1)),
    ]
}

/// The standard table, part 2: identification and patient.
pub open spec fn standard_part_2() -> Seq<DictEntry> {
    seq![
        spec_entry(0x0008, 0x0050, "AccessionNumber", VR::SH, 1, Some(1)),
        spec_entry(0x0008, 0x0060, "Modality", VR::CS, 1, Some(1)),
        spec_entry(0x0008, 0x0064, "ConversionType", VR::CS, 1, Some(1)),
        spec_entry(0x0008, 0x0070, "Manufacturer", VR::LO, 1, Some(1)),
        spec_entry(0x0008, 0x0080, "InstitutionName", VR::LO, 1, Some(1)),
        spec_entry(0x0008, 0x0090, "ReferringPhysicianName", VR::PN, 1, Some(1)),
        spec_entry(0x0008, 0x1030, "StudyDescription", VR::LO, 1, Some(1)),
        spec_entry(0x0008, 0x103E, "SeriesDescription", VR::LO, 1, Some(1)),
        spec_entry(0x0008, 0x1090, "ManufacturerModelName", VR::LO, 1, Some(1)),
        spec_entry(0x0008, 0x1140, "ReferencedImageSequence", VR::SQ, 1, Some(1)),
        spec_entry(0x0008, 0x1150, "ReferencedSOPClassUID", VR::UI, 1, Some(1)),
        spec_entry(0x0008, 0x1155, "ReferencedSOPInstanceUID", VR::UI, 1, Some(1)),
        spec_entry(0x0010, 0x0010, "PatientName", VR::PN, 1, Some(1)),
        spec_entry(0x0010, 0x0020, "PatientID", VR::LO, 1, Some(1)),
        spec_entry(0x0010, 0x0030, "PatientBirthDate", VR::DA, 1, Some(1)),
        spec_entry(0x0010, 0x0040, "PatientSex", VR::CS, 1, Some(1)),
        spec_entry(0x0010, 0x1010, "PatientAge", VR::AS, 1, Some(1)),
        spec_entry(0x0010, 0x1030, "PatientWeight", VR::DS, 1, Some(1)),
        spec_entry(0x0018, 0x0015, "BodyPartExamined", VR::CS, 1, Some(1)),
        spec_entry(0x0018, 0x0050, "SliceThickness", VR::DS, 1, Some(1)),
        spec_entry(0x0018, 0x0060, "KVP", VR::DS, 1, Some(1)),
        spec_entry(0x0018, 0x1020, "SoftwareVersions", VR::LO, 1, None),
    ]
}

/// The standard table, part 3: acquisition, relationship and image pixel.
pub open spec fn standard_part_3() -> Seq<DictEntry> {
    seq![
        spec_entry(0x0018, 0x5100, "PatientPosition", VR::CS, 1, Some(1)),
        spec_entry(0x0020, 0x000D, "StudyInstanceUID", VR::UI, 1, Some(1)),
        spec_entry(0x0020, 0x000E, "SeriesInstanceUID", VR::UI, 1, Some(1)),
        spec_entry(0x0020, 0x0010, "StudyID", VR::SH, 1, Some(1)),
        spec_entry(0x0020, 0x0011, "SeriesNumber", VR::IS, 1, Some(1)),
        spec_entry(0x0020, 0x0013, "InstanceNumber", VR::IS, 1, Some(1)),
        spec_entry(0x0020, 0x0032, "ImagePositionPatient", VR::DS, 3, Some(3)),
        spec_entry(0x0020, 0x0037, "ImageOrientationPatient", VR::DS, 6, Some(6)),
        spec_entry(0x0020, 0x0052, "FrameOfReferenceUID", VR::UI, 1, Some(1)),
        spec_entry(0x0020, 0x1041, "SliceLocation", VR::DS, 1, Some(1)),
        spec_entry(0x0028, 0x0002, "SamplesPerPixel", VR::US, 1, Some(1)),
        spec_entry(0x0028, 0x0004, "PhotometricInterpretation", VR::CS, 1, Some(1)),
        spec_entry(0x0028, 0x0006, "PlanarConfiguration", VR::US, 1, Some(1)),
        spec_entry(0x0028, 0x0008, "NumberOfFrames", VR::IS, 1, Some(1)),
        spec_entry(0x0028, 0x0010, "Rows", VR::US, 1, Some(1)),
        spec_entry(0x0028, 0x0011, "Columns", VR::US, 1, Some(1)),
        spec_entry(0x0028, 0x0030, "PixelSpacing", VR::DS, 2, Some(2)),
        spec_entry(0x0028, 0x0034, "PixelAspectRatio", VR::IS, 2, Some(2)),
        spec_entry(0x0028, 0x0100, "BitsAllocated", VR::US, 1, Some(1)),
        spec_entry(0x0028, 0x0101, "BitsStored", VR::US, 1, Some(1)),
        spec_entry(0x0028, 0x0102, "HighBit", VR::US, 1, Some(1)),
        spec_entry(0x0028, 0x0103, "PixelRepresentation", VR::US, 1, Some(1)),
    ]
}

/// The standard table, part 4: image pixel, presentation and pixel data.
pub open spec fn standard_part_4() -> Seq<DictEntry> {
    seq![
        spec_entry(0x0028, 0x0106, "SmallestImagePixelValue", VR::US, 1, Some(1)),
        spec_entry(0x0028, 0x0107, "LargestImagePixelValue", VR::US, 1, Some(1)),
        spec_entry(0x0028, 0x0121, "PixelPaddingRangeLimit", VR::US, 1, Some(1)),
        spec_entry(0x0028, 0x1050, "WindowCenter", VR::DS, 1, None),
        spec_entry(0x0028, 0x1051, "WindowWidth", VR::DS, 1, None),
        spec_entry(0x0028, 0x1052, "RescaleIntercept", VR::DS, 1, Some(1)),
        spec_entry(0x0028, 0x1053, "RescaleSlope", VR::DS, 1, Some(1)),
        spec_entry(0x0028, 0x1101, "RedPaletteColorLookupTableDescriptor", VR::US, 3, Some(3)),
        spec_entry(0x0028, 0x1102, "GreenPaletteColorLookupTableDescriptor", VR::US, 3, Some(3)),
        spec_entry(0x0028, 0x1103, "BluePaletteColorLookupTableDescriptor", VR::US, 3, Some(3)),
        spec_entry(0x0028, 0x1201, "RedPaletteColorLookupTableData", VR::OW, 1, Some(1)),
        spec_entry(0x0028, 0x1202, "GreenPaletteColorLookupTableData", VR::OW, 1, Some(1)),
        spec_entry(0x0028, 0x1203, "BluePaletteColorLookupTableData", VR::OW, 1, Some(1)),
        spec_entry(0x0028, 0x2000, "ICCProfile", VR::OB, 1, Some(1)),
        spec_entry(0x0028, 0x2002, "ColorSpace", VR::CS, 1, Some(1)),
        spec_entry(0x0028, 0x7FE0, "PixelDataProviderURL", VR::UR, 1, Some(1)),
        spec_entry(0x2050, 0x0020, "PresentationLUTShape", VR::CS, 1, Some(1)),
        spec_entry(0x7FE0, 0x0001, "ExtendedOffsetTable", VR::OV, 1, Some(1)),
        spec_entry(0x7FE0, 0x0002, "ExtendedOffsetTableLengths", VR::OV, 1, Some(1)),
        spec_entry(0x7FE0, 0x0010, "PixelData", VR::OW, 1, Some(1)),
    ]
}

/// The standard table: the public tags that the dictionary knows, in the
/// order of their tags.
pub open spec fn standard_entries() -> Seq<DictEntry> {
    standard_part_1() + standard_part_2() + standard_part_3() + standard_part_4()
}

/// The first entry for `tag` at or after position `from`.
pub open spec fn find_entry(entries: Seq<DictEntry>, tag: Tag, from: int) -> Option<DictEntry>
    decreases entries.len() - from,
{
    if from < 0 || from >= entries.len() {
        None
    } else if entries[from].tag == tag {
        Some(entries[from])
    } else {
        find_entry(entries, tag, from + 1)
    }
}

/// The first entry named `name` at or after position `from`.
pub open spec fn find_name(entries: Seq<DictEntry>, name: Seq<u8>, from: int) -> Option<DictEntry>
    decreases entries.len() - from,
{
    if from < 0 || from >= entries.len() {
        None
    } else if entries[from].name.spec_bytes() == name {
        Some(entries[from])
    } else {
        find_name(entries, name, from + 1)
    }
}

/// Whether a private entry is the one of `creator` for `tag`.
pub open spec fn private_matches(p: PrivateEntry, creator: Seq<u8>, tag: Tag) -> bool {
    p.creator.spec_bytes() == creator && p.group == tag.group && p.element as int == tag.element
        % 256
}

/// The first entry of `creator` for `tag` at or after position `from`.
pub open spec fn find_private(
    entries: Seq<PrivateEntry>,
    creator: Seq<u8>,
    tag: Tag,
    from: int,
) -> Option<PrivateEntry>
    decreases entries.len() - from,
{
    if from < 0 || from >= entries.len() {
        None
    } else if private_matches(entries[from], creator, tag) {
        Some(entries[from])
    } else {
        find_private(entries, creator, tag, from + 1)
    }
}

/// The entry of every private creator element.
pub open spec fn creator_entry(tag: Tag) -> DictEntry {
    DictEntry {
        tag,
        name: "PrivateCreator",
        vr: VR::LO,
        multiplicity: Multiplicity { min: 1, max: Some(1) },
    }
}

/// What the dictionary says of `tag`.
///
/// A private creator element is always known. Any other private tag is
/// known only where a creator is given and that creator registered an entry
/// for the tag. A public tag is looked up in the table.
pub open spec fn spec_lookup(d: DictionaryModel, tag: Tag, creator: Option<Seq<u8>>) -> Option<
    DictEntry,
> {
    if tag.spec_is_private_creator() {
        Some(creator_entry(tag))
    } else if tag.spec_is_private() {
        match creator {
            Some(c) => match find_private(d.private_entries, c, tag, 0) {
                Some(p) => Some(
                    DictEntry { tag, name: p.name, vr: p.vr, multiplicity: p.multiplicity },
                ),
                None => None,
            },
            None => None,
        }
    } else {
        find_entry(d.entries, tag, 0)
    }
}

/// The creator of the block of a private tag, as the data set `ds` names
/// it: the first component of the text of the private creator element of
/// that block, where `ds` holds one.
pub open spec fn creator_in(ds: Seq<ElementModel>, tag: Tag) -> Option<Seq<u8>> {
    if tag.spec_is_private() && !tag.spec_is_private_creator() {
        match position_of(ds, tag.spec_creator_tag()) {
            Some(i) => match ds[i].value {
                ValueModel::Primitive(PrimitiveModel::Strings(parts)) => if parts.len() > 0 {
                    Some(parts[0])
                } else {
                    None
                },
                _ => None,
            },
            None => None,
        }
    } else {
        None
    }
}

/// The representation of `tag` where the stream does not say it: the one in
/// the dictionary, with the private creators that `ds` names; UN where the
/// dictionary does not know the tag.
pub open spec fn spec_resolve_vr(d: DictionaryModel, ds: Seq<ElementModel>, tag: Tag) -> VR {
    match spec_lookup(d, tag, creator_in(ds, tag)) {
        Some(e) => e.vr,
        None => VR::UN,
    }
}

fn entry(group: u16, element: u16, name: &'static str, vr: VR, min: u32, max: Option<u32>) -> (e:
    DictEntry)
    ensures
        e == spec_entry(group, element, name, vr, min, max),
{
    DictEntry { tag: Tag { group, element }, name, vr, multiplicity: Multiplicity { min, max } }
}

fn push_part_1(table: &mut Vec<DictEntry>)
    ensures
        final(table)@ == old(table)@ + standard_part_1(),
{
    table.push(entry(0x0002, 0x0000, "FileMetaInformationGroupLength", VR::UL, 1, Some(1)));
    table.push(entry(0x0002, 0x0001, "FileMetaInformationVersion", VR::OB, 1, Some(1)));
    table.push(entry(0x0002, 0x0002, "MediaStorageSOPClassUID", VR::UI, 1, Some(1)));
    table.push(entry(0x0002, 0x0003, "MediaStorageSOPInstanceUID", VR::UI, 1, Some(1)));
    table.push(entry(0x0002, 0x0010, "TransferSyntaxUID", VR::UI, 1, Some(1)));
    table.push(entry(0x0002, 0x0012, "ImplementationClassUID", VR::UI, 1, Some(1)));
    table.push(entry(0x0002, 0x0013, "ImplementationVersionName", VR::SH, 1, Some(1)));
    table.push(entry(0x0002, 0x0016, "SourceApplicationEntityTitle", VR::AE, 1, Some(1)));
    table.push(entry(0x0008, 0x0005, "SpecificCharacterSet", VR::CS, 1, None));
    table.push(entry(0x0008, 0x0008, "ImageType", VR::CS, 2, None));
    table.push(entry(0x0008, 0x0012, "InstanceCreationDate", VR::DA, 1, Some(1)));
    table.push(entry(0x0008, 0x0013, "InstanceCreationTime", VR::TM, 1, Some(1)));
    table.push(entry(0x0008, 0x0016, "SOPClassUID", VR::UI, 1, Some(1)));
    table.push(entry(0x0008, 0x0018, "SOPInstanceUID", VR::UI, 1, Some(1)));
    table.push(entry(0x0008, 0x0020, "StudyDate", VR::DA, 1, Some(1)));
    table.push(entry(0x0008, 0x0021, "SeriesDate", VR::DA, 1, Some(1)));
    table.push(entry(0x0008, 0x0022, "AcquisitionDate", VR::DA, 1, Some(1)));
    table.push(entry(0x0008, 0x0023, "ContentDate", VR::DA, 1, Some(1)));
    table.push(entry(0x0008, 0x0030, "StudyTime", VR::TM, 1, Some(1)));
    table.push(entry(0x0008, 0x0031, "SeriesTime", VR::TM, 1, Some(1)));
    table.push(entry(0x0008, 0x0032, "AcquisitionTime", VR::TM, 1, Some(1)));
    table.push(entry(0x0008, 0x0033, "ContentTime", VR::TM, 1, Some(1)));
}

fn push_part_2(table: &mut Vec<DictEntry>)
    ensures
        final(table)@ == old(table)@ + standard_part_2(),
{
    table.push(entry(0x0008, 0x0050, "AccessionNumber", VR::SH, 1, Some(1)));
    table.push(entry(0x0008, 0x0060, "Modality", VR::CS, 1, Some(1)));
    table.push(entry(0x0008, 0x0064, "ConversionType", VR::CS, 1, Some(1)));
    table.push(entry(0x0008, 0x0070, "Manufacturer", VR::LO, 1, Some(1)));
    table.push(entry(0x0008, 0x0080, "InstitutionName", VR::LO, 1, Some(1)));
    table.push(entry(0x0008, 0x0090, "ReferringPhysicianName", VR::PN, 1, Some(1)));
    table.push(entry(0x0008, 0x1030, "StudyDescription", VR::LO, 1, Some(1)));
    table.push(entry(0x0008, 0x103E, "SeriesDescription", VR::LO, 1, Some(1)));
    table.push(entry(0x0008, 0x1090, "ManufacturerModelName", VR::LO, 1, Some(1)));
    table.push(entry(0x0008, 0x1140, "ReferencedImageSequence", VR::SQ, 1, Some(1)));
    table.push(entry(0x0008, 0x1150, "ReferencedSOPClassUID", VR::UI, 1, Some(1)));
    table.push(entry(0x0008, 0x1155, "ReferencedSOPInstanceUID", VR::UI, 1, Some(1)));
    table.push(entry(0x0010, 0x0010, "PatientName", VR::PN, 1, Some(1)));
    table.push(entry(0x0010, 0x0020, "PatientID", VR::LO, 1, Some(1)));
    table.push(entry(0x0010, 0x0030, "PatientBirthDate", VR::DA, 1, Some(1)));
    table.push(entry(0x0010, 0x0040, "PatientSex", VR::CS, 1, Some(1)));
    table.push(entry(0x0010, 0x1010, "PatientAge", VR::AS, 1, Some(1)));
    table.push(entry(0x0010, 0x1030, "PatientWeight", VR::DS, 1, Some(1)));
    table.push(entry(0x0018, 0x0015, "BodyPartExamined", VR::CS, 1, Some(1)));
    table.push(entry(0x0018, 0x0050, "SliceThickness", VR::DS, 1, Some(1)));
    table.push(entry(0x0018, 0x0060, "KVP", VR::DS, 1, Some(1)));
    table.push(entry(0x0018, 0x1020, "SoftwareVersions", VR::LO, 1, None));
}

fn push_part_3(table: &mut Vec<DictEntry>)
    ensures
        final(table)@ == old(table)@ + standard_part_3(),
{
    table.push(entry(0x0018, 0x5100, "PatientPosition", VR::CS, 1, Some(1)));
    table.push(entry(0x0020, 0x000D, "StudyInstanceUID", VR::UI, 1, Some(1)));
    table.push(entry(0x0020, 0x000E, "SeriesInstanceUID", VR::UI, 1, Some(1)));
    table.push(entry(0x0020, 0x0010, "StudyID", VR::SH, 1, Some(1)));
    table.push(entry(0x0020, 0x0011, "SeriesNumber", VR::IS, 1, Some(1)));
    table.push(entry(0x0020, 0x0013, "InstanceNumber", VR::IS, 1, Some(1)));
    table.push(entry(0x0020, 0x0032, "ImagePositionPatient", VR::DS, 3, Some(3)));
    table.push(entry(0x0020, 0x0037, "ImageOrientationPatient", VR::DS, 6, Some(6)));
    table.push(entry(0x0020, 0x0052, "FrameOfReferenceUID", VR::UI, 1, Some(1)));
    table.push(entry(0x0020, 0x1041, "SliceLocation", VR::DS, 1, Some(1)));
    table.push(entry(0x0028, 0x0002, "SamplesPerPixel", VR::US, 1, Some(1)));
    table.push(entry(0x0028, 0x0004, "PhotometricInterpretation", VR::CS, 1, Some(1)));
    table.push(entry(0x0028, 0x0006, "PlanarConfiguration", VR::US, 1, Some(1)));
    table.push(entry(0x0028, 0x0008, "NumberOfFrames", VR::IS, 1, Some(1)));
    table.push(entry(0x0028, 0x0010, "Rows", VR::US, 1, Some(1)));
    table.push(entry(0x0028, 0x0011, "Columns", VR::US, 1, Some(1)));
    table.push(entry(0x0028, 0x0030, "PixelSpacing", VR::DS, 2, Some(2)));
    table.push(entry(0x0028, 0x0034, "PixelAspectRatio", VR::IS, 2, Some(2)));
    table.push(entry(0x0028, 0x0100, "BitsAllocated", VR::US, 1, Some(1)));
    table.push(entry(0x0028, 0x0101, "BitsStored", VR::US, 1, Some(1)));
    table.push(entry(0x0028, 0x0102, "HighBit", VR::US, 1, Some(1)));
    table.push(entry(0x0028, 0x0103, "PixelRepresentation", VR::US, 1, Some(1)));
}

fn push_part_4(table: &mut Vec<DictEntry>)
    ensures
        final(table)@ == old(table)@ + standard_part_4(),
{
    table.push(entry(0x0028, 0x0106, "SmallestImagePixelValue", VR::US, 1, Some(1)));
    table.push(entry(0x0028, 0x0107, "LargestImagePixelValue", VR::US, 1, Some(1)));
    table.push(entry(0x0028, 0x0121, "PixelPaddingRangeLimit", VR::US, 1, Some(1)));
    table.push(entry(0x0028, 0x1050, "WindowCenter", VR::DS, 1, None));
    table.push(entry(0x0028, 0x1051, "WindowWidth", VR::DS, 1, None));
    table.push(entry(0x0028, 0x1052, "RescaleIntercept", VR::DS, 1, Some(1)));
    table.push(entry(0x0028, 0x1053, "RescaleSlope", VR::DS, 1, Some(1)));
    table.push(entry(0x0028, 0x1101, "RedPaletteColorLookupTableDescriptor", VR::US, 3, Some(3)));
    table.push(entry(0x0028, 0x1102, "GreenPaletteColorLookupTableDescriptor", VR::US, 3, Some(3)));
    table.push(entry(0x0028, 0x1103, "BluePaletteColorLookupTableDescriptor", VR::US, 3, Some(3)));
    table.push(entry(0x0028, 0x1201, "RedPaletteColorLookupTableData", VR::OW, 1, Some(1)));
    table.push(entry(0x0028, 0x1202, "GreenPaletteColorLookupTableData", VR::OW, 1, Some(1)));
    table.push(entry(0x0028, 0x1203, "BluePaletteColorLookupTableData", VR::OW, 1, Some(1)));
    table.push(entry(0x0028, 0x2000, "ICCProfile", VR::OB, 1, Some(1)));
    table.push(entry(0x0028, 0x2002, "ColorSpace", VR::CS, 1, Some(1)));
    table.push(entry(0x0028, 0x7FE0, "PixelDataProviderURL", VR::UR, 1, Some(1)));
    table.push(entry(0x2050, 0x0020, "PresentationLUTShape", VR::CS, 1, Some(1)));
    table.push(entry(0x7FE0, 0x0001, "ExtendedOffsetTable", VR::OV, 1, Some(1)));
    table.push(entry(0x7FE0, 0x0002, "ExtendedOffsetTableLengths", VR::OV, 1, Some(1)));
    table.push(entry(0x7FE0, 0x0010, "PixelData", VR::OW, 1, Some(1)));
}

impl Dictionary {
    /// The dictionary that holds the standard table and no private entries.
    pub fn standard() -> (d: Dictionary)
        ensures
            d@.entries == standard_entries(),
            d@.private_entries == Seq::<PrivateEntry>::empty(),
    {
        let mut table: Vec<DictEntry> = Vec::new();
        push_part_1(&mut table);
        push_part_2(&mut table);
        push_part_3(&mut table);
        push_part_4(&mut table);
        Dictionary { entries: table, private_entries: Vec::new() }
    }

    /// A dictionary without any entry.
    pub fn empty() -> (d: Dictionary)
        ensures
            d@.entries == Seq::<DictEntry>::empty(),
            d@.private_entries == Seq::<PrivateEntry>::empty(),
    {
        Dictionary { entries: Vec::new(), private_entries: Vec::new() }
    }

    /// Adds an entry after those that are there. An earlier entry for the
    /// same tag stays the one that is found.
    pub fn register(&mut self, entry: DictEntry)
        ensures
            final(self)@.entries == old(self)@.entries.push(entry),
            final(self)@.private_entries == old(self)@.private_entries,
    {
        self.entries.push(entry);
    }

    /// Adds the entry of a private creator after those that are there.
    pub fn register_private(&mut self, entry: PrivateEntry)
        ensures
            final(self)@.entries == old(self)@.entries,
            final(self)@.private_entries == old(self)@.private_entries.push(entry),
    {
        self.private_entries.push(entry);
    }

    /// What the dictionary says of `tag`, given the creator of its block
    /// where the tag is private. A miss is no error: the caller falls back
    /// to UN.
    pub fn lookup(&self, tag: Tag, creator: Option<&[u8]>) -> (r: Option<DictEntry>)
        ensures
            r == spec_lookup(
                self@,
                tag,
                match creator {
                    Some(c) => Some(c@),
                    None => None,
                },
            ),
    {
        if tag.is_private_creator() {
            Some(
                DictEntry {
                    tag,
                    name: "PrivateCreator",
                    vr: VR::LO,
                    multiplicity: Multiplicity { min: 1, max: Some(1) },
                },
            )
        } else if tag.is_private() {
            match creator {
                Some(c) => {
                    let low = (tag.element % 256) as u8;
                    let mut i: usize = 0;
                    while i < self.private_entries.len()
                        invariant
                            i <= self.private_entries@.len(),
                            low as int == tag.element % 256,
                            tag.spec_is_private(),
                            !tag.spec_is_private_creator(),
                            creator == Some(c),
                            find_private(self@.private_entries, c@, tag, 0) == find_private(
                                self@.private_entries,
                                c@,
                                tag,
                                i as int,
                            ),
                        decreases self.private_entries@.len() - i,
                    {
                        let p = self.private_entries[i];
                        if p.group == tag.group && p.element == low && bytes_equal(
                            p.creator.as_bytes(),
                            c,
                        ) {
                            return Some(
                                DictEntry {
                                    tag,
                                    name: p.name,
                                    vr: p.vr,
                                    multiplicity: p.multiplicity,
                                },
                            );
                        }
                        i += 1;
                    }
                    None
                },
                None => None,
            }
        } else {
            let mut i: usize = 0;
            while i < self.entries.len()
                invariant
                    i <= self.entries@.len(),
                    !tag.spec_is_private(),
                    find_entry(self@.entries, tag, 0) == find_entry(self@.entries, tag, i as int),
                decreases self.entries@.len() - i,
            {
                let e = self.entries[i];
                if e.tag.same(&tag) {
                    return Some(e);
                }
                i += 1;
            }
            None
        }
    }

    /// The first entry of the table with the name `name`.
    pub fn lookup_name(&self, name: &str) -> (r: Option<DictEntry>)
        ensures
            r == find_name(self@.entries, name.spec_bytes(), 0),
    {
        let wanted = name.as_bytes();
        let mut i: usize = 0;
        while i < self.entries.len()
            invariant
                i <= self.entries@.len(),
                wanted@ == name.spec_bytes(),
                find_name(self@.entries, name.spec_bytes(), 0) == find_name(
                    self@.entries,
                    name.spec_bytes(),
                    i as int,
                ),
            decreases self.entries@.len() - i,
        {
            let e = self.entries[i];
            if bytes_equal(e.name.as_bytes(), wanted) {
                return Some(e);
            }
            i += 1;
        }
        None
    }

    /// The creator of the block of a private tag, as `ds` names it.
    pub fn creator_of<'a>(ds: &'a DataSet, tag: Tag) -> (r: Option<&'a [u8]>)
        ensures
            match r {
                Some(c) => creator_in(ds@, tag) == Some(c@),
                None => creator_in(ds@, tag) is None,
            },
    {
        if tag.is_private() && !tag.is_private_creator() {
            match ds.get(tag.creator_tag()) {
                Some(e) => match &e.value {
                    Value::Primitive(PrimitiveValue::Strings(parts)) => {
                        if parts.len() > 0 {
                            Some(parts[0].as_slice())
                        } else {
                            None
                        }
                    },
                    _ => None,
                },
                None => None,
            }
        } else {
            None
        }
    }

    /// The representation of `tag` where the stream does not say it.
    pub fn resolve_vr(&self, ds: &DataSet, tag: Tag) -> (vr: VR)
        ensures
            vr == spec_resolve_vr(self@, ds@, tag),
    {
        match self.lookup(tag, Dictionary::creator_of(ds, tag)) {
            Some(e) => e.vr,
            None => VR::UN,
        }
    }
}

/// The first element of `ds` whose tag the dictionary lists under `name`.
pub fn get_by_name<'a>(ds: &'a DataSet, dictionary: &Dictionary, name: &str) -> (r: Option<
    &'a crate::element::DataElement,
>)
    ensures
        match find_name(dictionary@.entries, name.spec_bytes(), 0) {
            Some(entry) => match r {
                Some(e) => position_of(ds@, entry.tag) matches Some(i) && e@ == ds@[i],
                None => position_of(ds@, entry.tag) is None,
            },
            None => r is None,
        },
{
    match dictionary.lookup_name(name) {
        Some(entry) => ds.get(entry.tag),
        None => None,
    }
}

} // verus!
