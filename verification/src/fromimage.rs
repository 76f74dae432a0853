//! Replacing the image of a DICOM object by another image: which
//! attributes of the image pixel module are written and which are removed.

use crate::element::apply_edits;
use crate::element::edit_models;
use crate::element::DataElement;
use crate::element::DataSet;
use crate::element::Edit;
use crate::element::EditModel;
use crate::element::ElementModel;
use crate::element::Value;
use crate::element::ValueModel;
use crate::meta::FileMetaTable;
use crate::meta::MetaModel;
use crate::meta::built_elements;
use crate::tag::Tag;
use crate::text::copy_range;
use crate::text::views;
use crate::transfer_syntax::explicit_vr_le_uid;
use crate::transfer_syntax::TransferSyntax;
use crate::transfer_syntax::TransferSyntaxModel;
use crate::value::PrimitiveModel;
use crate::value::PrimitiveValue;
use crate::vr::VR;
use vstd::prelude::*;
use vstd::string::StringSliceAdditionalSpecFns;

verus! {

/// The colour type of an image, as far as this library tells them apart.
#[derive(Clone, Copy, Debug, PartialEq, Eq, Structural)]
pub enum ColorKind {
    /// Grey, 8 bits.
    L8,
    /// Grey, 16 bits.
    L16,
    /// Red, green and blue, 8 bits each.
    Rgb8,
    /// Red, green and blue, 16 bits each.
    Rgb16,
    /// Any other colour type.
    Other,
}

/// How the pixels of an image are described in a data set.
#[derive(Clone, Copy, Debug)]
pub struct PixelLayout {
    pub photometric_interpretation: &'static str,
    pub samples_per_pixel: u16,
    pub bits_stored: u16,
}

/// Why an image cannot replace the image of an object.
#[derive(Clone, Copy, Debug, PartialEq, Eq, Structural)]
pub enum ImageError {
    /// The colour type of the image is none of those that can be written.
    UnsupportedColor,
}

/// The layout of the pixels of an image of a colour type; `None` for a
/// colour type that cannot be written.
pub open spec fn spec_pixel_layout(color: ColorKind) -> Option<PixelLayout> {
    match color {
        ColorKind::L8 => Some(
            PixelLayout {
                photometric_interpretation: "MONOCHROME2",
                samples_per_pixel: 1,
                bits_stored: 8,
            },
        ),
        ColorKind::L16 => Some(
            PixelLayout {
                photometric_interpretation: "MONOCHROME2",
                samples_per_pixel: 1,
                bits_stored: 16,
            },
        ),
        ColorKind::Rgb8 => Some(
            PixelLayout { photometric_interpretation: "RGB", samples_per_pixel: 3, bits_stored: 8 },
        ),
        ColorKind::Rgb16 => Some(
            PixelLayout { photometric_interpretation: "RGB", samples_per_pixel: 3, bits_stored: 16 },
        ),
        ColorKind::Other => None,
    }
}

/// An element that holds one code string.
pub open spec fn code_element(tag: Tag, text: Seq<u8>) -> ElementModel {
    ElementModel {
        tag,
        vr: VR::CS,
        value: ValueModel::Primitive(PrimitiveModel::Strings(seq![text])),
    }
}

/// An element that holds one unsigned 16-bit number.
pub open spec fn short_element(tag: Tag, v: u16) -> ElementModel {
    ElementModel { tag, vr: VR::US, value: ValueModel::Primitive(PrimitiveModel::U16(seq![v])) }
}

/// The Pixel Data element for the bytes of an image: the bytes as they
/// come, as OB where a sample has 8 bits, else as OW.
pub open spec fn pixel_element(bits_stored: u16, pixels: Seq<u8>) -> ElementModel {
    ElementModel {
        tag: Tag { group: 0x7FE0, element: 0x0010 },
        vr: if bits_stored == 8 {
            VR::OB
        } else {
            VR::OW
        },
        value: ValueModel::Primitive(PrimitiveModel::Bytes(pixels)),
    }
}

/// The changes that replace the image of a data set by an image of `width`
/// by `height` pixels with the layout `layout` and the bytes `pixels`.
///
/// The photometric interpretation, the presentation LUT shape (IDENTITY),
/// the samples per pixel, the columns and rows (cut to 16 bits), the bits
/// allocated and stored, the high bit and the pixel representation are
/// written. The planar configuration is written for an image with more
/// than one sample per pixel, else removed. The attributes that describe
/// frames, pixel ranges, palettes, colour spaces and offset tables of the
/// old image are removed. The pixel data is written last.
pub open spec fn image_edits(width: u32, height: u32, layout: PixelLayout, pixels: Seq<u8>) -> Seq<
    EditModel,
> {
    seq![
        EditModel::Put(
            code_element(
                Tag { group: 0x0028, element: 0x0004 },
                layout.photometric_interpretation.spec_bytes(),
            ),
        ),
        EditModel::Put(
            code_element(Tag { group: 0x2050, element: 0x0020 }, "IDENTITY".spec_bytes()),
        ),
        EditModel::Put(
            short_element(Tag { group: 0x0028, element: 0x0002 }, layout.samples_per_pixel),
        ),
        if layout.samples_per_pixel > 1 {
            EditModel::Put(short_element(Tag { group: 0x0028, element: 0x0006 }, 0))
        } else {
            EditModel::Remove(Tag { group: 0x0028, element: 0x0006 })
        },
        EditModel::Put(
            short_element(Tag { group: 0x0028, element: 0x0011 }, (width % 0x1_0000) as u16),
        ),
        EditModel::Put(
            short_element(Tag { group: 0x0028, element: 0x0010 }, (height % 0x1_0000) as u16),
        ),
        EditModel::Put(short_element(Tag { group: 0x0028, element: 0x0100 }, layout.bits_stored)),
        EditModel::Put(short_element(Tag { group: 0x0028, element: 0x0101 }, layout.bits_stored)),
        EditModel::Put(
            short_element(
                Tag { group: 0x0028, element: 0x0102 },
                (layout.bits_stored - 1) as u16,
            ),
        ),
        EditModel::Put(short_element(Tag { group: 0x0028, element: 0x0103 }, 0)),
        EditModel::Remove(Tag { group: 0x0028, element: 0x0008 }),
        EditModel::Remove(Tag { group: 0x0028, element: 0x0034 }),
        EditModel::Remove(Tag { group: 0x0028, element: 0x0106 }),
        EditModel::Remove(Tag { group: 0x0028, element: 0x0107 }),
        EditModel::Remove(Tag { group: 0x0028, element: 0x0121 }),
        EditModel::Remove(Tag { group: 0x0028, element: 0x1201 }),
        EditModel::Remove(Tag { group: 0x0028, element: 0x1101 }),
        EditModel::Remove(Tag { group: 0x0028, element: 0x1202 }),
        EditModel::Remove(Tag { group: 0x0028, element: 0x1102 }),
        EditModel::Remove(Tag { group: 0x0028, element: 0x1203 }),
        EditModel::Remove(Tag { group: 0x0028, element: 0x1103 }),
        EditModel::Remove(Tag { group: 0x0028, element: 0x2000 }),
        EditModel::Remove(Tag { group: 0x0028, element: 0x2002 }),
        EditModel::Remove(Tag { group: 0x0028, element: 0x7FE0 }),
        EditModel::Remove(Tag { group: 0x7FE0, element: 0x0001 }),
        EditModel::Remove(Tag { group: 0x7FE0, element: 0x0002 }),
        EditModel::Put(pixel_element(layout.bits_stored, pixels)),
    ]
}

/// The changes that replace the image of a data set by an image of colour
/// type `color`; an error for a colour type that cannot be written.
pub open spec fn spec_image_edits(width: u32, height: u32, color: ColorKind, pixels: Seq<u8>)
    -> Result<Seq<EditModel>, ImageError> {
    match spec_pixel_layout(color) {
        None => Err(ImageError::UnsupportedColor),
        Some(layout) => Ok(image_edits(width, height, layout, pixels)),
    }
}

/// The layout of the pixels of an image of a colour type.
pub fn pixel_layout(color: ColorKind) -> (r: Option<PixelLayout>)
    ensures
        r == spec_pixel_layout(color),
        r matches Some(l) ==> (l.bits_stored == 8 || l.bits_stored == 16) && (l.samples_per_pixel
            == 1 || l.samples_per_pixel == 3),
{
    match color {
        ColorKind::L8 => Some(
            PixelLayout {
                photometric_interpretation: "MONOCHROME2",
                samples_per_pixel: 1,
                bits_stored: 8,
            },
        ),
        ColorKind::L16 => Some(
            PixelLayout {
                photometric_interpretation: "MONOCHROME2",
                samples_per_pixel: 1,
                bits_stored: 16,
            },
        ),
        ColorKind::Rgb8 => Some(
            PixelLayout { photometric_interpretation: "RGB", samples_per_pixel: 3, bits_stored: 8 },
        ),
        ColorKind::Rgb16 => Some(
            PixelLayout { photometric_interpretation: "RGB", samples_per_pixel: 3, bits_stored: 16 },
        ),
        ColorKind::Other => None,
    }
}

fn make_code_element(tag: Tag, text: &str) -> (e: DataElement)
    ensures
        e@ == code_element(tag, text.spec_bytes()),
{
    let bytes = text.as_bytes();
    let copy = copy_range(bytes, 0, bytes.len());
    assert(bytes@.subrange(0, bytes@.len() as int) == bytes@);
    let mut parts: Vec<Vec<u8>> = Vec::new();
    parts.push(copy);
    assert(views(parts@) =~= seq![text.spec_bytes()]);
    DataElement { tag, vr: VR::CS, value: Value::Primitive(PrimitiveValue::Strings(parts)) }
}

fn make_short_element(tag: Tag, v: u16) -> (e: DataElement)
    ensures
        e@ == short_element(tag, v),
{
    let mut values: Vec<u16> = Vec::new();
    values.push(v);
    DataElement { tag, vr: VR::US, value: Value::Primitive(PrimitiveValue::U16(values)) }
}

fn make_pixel_element(bits_stored: u16, pixels: &[u8]) -> (e: DataElement)
    ensures
        e@ == pixel_element(bits_stored, pixels@),
{
    let copy = copy_range(pixels, 0, pixels.len());
    assert(pixels@.subrange(0, pixels@.len() as int) == pixels@);
    DataElement {
        tag: Tag { group: 0x7FE0, element: 0x0010 },
        vr: if bits_stored == 8 {
            VR::OB
        } else {
            VR::OW
        },
        value: Value::Primitive(PrimitiveValue::Bytes(copy)),
    }
}

fn build_image_edits(width: u32, height: u32, layout: PixelLayout, pixels: &[u8]) -> (edits: Vec<
    Edit,
>)
    requires
        layout.bits_stored >= 1,
    ensures
        edit_models(edits@) == image_edits(width, height, layout, pixels@),
{
    let mut edits: Vec<Edit> = Vec::new();
    edits.push(
        Edit::Put(
            make_code_element(
                Tag { group: 0x0028, element: 0x0004 },
                layout.photometric_interpretation,
            ),
        ),
    );
    edits.push(Edit::Put(make_code_element(Tag { group: 0x2050, element: 0x0020 }, "IDENTITY")));
    edits.push(
        Edit::Put(
            make_short_element(Tag { group: 0x0028, element: 0x0002 }, layout.samples_per_pixel),
        ),
    );
    if layout.samples_per_pixel > 1 {
        edits.push(Edit::Put(make_short_element(Tag { group: 0x0028, element: 0x0006 }, 0)));
    } else {
        edits.push(Edit::Remove(Tag { group: 0x0028, element: 0x0006 }));
    }
    edits.push(
        Edit::Put(
            make_short_element(Tag { group: 0x0028, element: 0x0011 }, (width % 0x1_0000) as u16),
        ),
    );
    edits.push(
        Edit::Put(
            make_short_element(Tag { group: 0x0028, element: 0x0010 }, (height % 0x1_0000) as u16),
        ),
    );
    edits.push(
        Edit::Put(make_short_element(Tag { group: 0x0028, element: 0x0100 }, layout.bits_stored)),
    );
    edits.push(
        Edit::Put(make_short_element(Tag { group: 0x0028, element: 0x0101 }, layout.bits_stored)),
    );
    edits.push(
        Edit::Put(
            make_short_element(Tag { group: 0x0028, element: 0x0102 }, layout.bits_stored - 1),
        ),
    );
    edits.push(Edit::Put(make_short_element(Tag { group: 0x0028, element: 0x0103 }, 0)));
    edits.push(Edit::Remove(Tag { group: 0x0028, element: 0x0008 }));
    edits.push(Edit::Remove(Tag { group: 0x0028, element: 0x0034 }));
    edits.push(Edit::Remove(Tag { group: 0x0028, element: 0x0106 }));
    edits.push(Edit::Remove(Tag { group: 0x0028, element: 0x0107 }));
    edits.push(Edit::Remove(Tag { group: 0x0028, element: 0x0121 }));
    edits.push(Edit::Remove(Tag { group: 0x0028, element: 0x1201 }));
    edits.push(Edit::Remove(Tag { group: 0x0028, element: 0x1101 }));
    edits.push(Edit::Remove(Tag { group: 0x0028, element: 0x1202 }));
    edits.push(Edit::Remove(Tag { group: 0x0028, element: 0x1102 }));
    edits.push(Edit::Remove(Tag { group: 0x0028, element: 0x1203 }));
    edits.push(Edit::Remove(Tag { group: 0x0028, element: 0x1103 }));
    edits.push(Edit::Remove(Tag { group: 0x0028, element: 0x2000 }));
    edits.push(Edit::Remove(Tag { group: 0x0028, element: 0x2002 }));
    edits.push(Edit::Remove(Tag { group: 0x0028, element: 0x7FE0 }));
    edits.push(Edit::Remove(Tag { group: 0x7FE0, element: 0x0001 }));
    edits.push(Edit::Remove(Tag { group: 0x7FE0, element: 0x0002 }));
    edits.push(Edit::Put(make_pixel_element(layout.bits_stored, pixels)));
    edits
}

/// Replaces the image of a data set by an image of `width` by `height`
/// pixels of colour type `color` with the bytes `pixels`.
///
/// On success the data set is the old one after the changes that the
/// image asks for. It fails, and leaves the data set as it is, exactly where
/// the colour type cannot be written.
pub fn replace_image(ds: &mut DataSet, width: u32, height: u32, color: ColorKind, pixels: &[u8])
    -> (r: Result<(), ImageError>)
    ensures
        match r {
            Ok(_) => {
                &&& spec_image_edits(width, height, color, pixels@) matches Ok(edits)
                &&& final(ds)@ == apply_edits(old(ds)@, edits)
            },
            Err(e) => {
                &&& spec_image_edits(width, height, color, pixels@) matches Err(f) && f == e
                &&& final(ds)@ == old(ds)@
            },
        },
{
    let layout = match pixel_layout(color) {
        Some(l) => l,
        None => {
            return Err(ImageError::UnsupportedColor);
        },
    };
    let edits = build_image_edits(width, height, layout, pixels);
    ds.apply(edits);
    Ok(())
}

/// The file meta table for an object that is written in Explicit VR Little
/// Endian with the identifiers of `old`.
pub fn explicit_vr_le_meta(old: &FileMetaTable) -> (t: FileMetaTable)
    ensures
        t@ == (MetaModel {
            transfer_syntax: TransferSyntaxModel {
                uid: explicit_vr_le_uid(),
                explicit_vr: true,
                big_endian: false,
                deflated: false,
            },
            media_storage_sop_class_uid: old@.media_storage_sop_class_uid,
            media_storage_sop_instance_uid: old@.media_storage_sop_instance_uid,
            implementation_class_uid: old@.implementation_class_uid,
            elements: built_elements(
                explicit_vr_le_uid(),
                old@.media_storage_sop_class_uid,
                old@.media_storage_sop_instance_uid,
                old@.implementation_class_uid,
            ),
            end: 0,
        }),
{
    let ts = TransferSyntax::new("1.2.840.10008.1.2.1", true, false, false);
    FileMetaTable::build(
        &ts,
        old.media_storage_sop_class_uid.as_slice(),
        old.media_storage_sop_instance_uid.as_slice(),
        old.implementation_class_uid.as_slice(),
    )
}

} // verus!
