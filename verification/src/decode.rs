//! The stream decoder: from bytes to data elements.
//!
//! The functions of this module read the window `pos..end` of a byte
//! stream. What each of them yields is stated by a function on the bytes as
//! a mathematical sequence; the executable decoder is proved to compute it.

use crate::bytes::read_u16;
use crate::bytes::read_u32;
use crate::bytes::u16_at;
use crate::bytes::u32_at;
use crate::dictionary::spec_resolve_vr;
use crate::dictionary::Dictionary;
use crate::dictionary::DictionaryModel;
use crate::element::items_model;
use crate::element::lemma_sequence_model;
use crate::element::kinds_match;
use crate::element::spec_put;
use crate::element::well_formed;
use crate::element::DataElement;
use crate::element::DataSet;
use crate::element::ElementModel;
use crate::element::PixelSequence;
use crate::element::Value;
use crate::element::ValueModel;
use crate::error::decode_error;
use crate::error::DecodeError;
use crate::error::DecodeErrorKind;
use crate::error::DecodeFailure;
use crate::tag::spec_item_delimiter_tag;
use crate::tag::spec_item_tag;
use crate::tag::spec_pixel_data_tag;
use crate::tag::spec_sequence_delimiter_tag;
use crate::tag::Tag;
use crate::text::copy_range;
use crate::text::views;
use crate::transfer_syntax::Encoding;
use crate::value::decode_primitive;
use crate::value::spec_decode_primitive;
use crate::vr::spec_from_code;
use crate::vr::spec_long_length;
use crate::vr::UNDEFINED_LENGTH;
use crate::vr::VR;
use vstd::prelude::*;
use vstd::slice::slice_subrange;

verus! {

/// The header of a data element as it stands in the stream.
#[derive(Clone, Copy, Debug, PartialEq, Eq, Structural)]
pub struct ElementHeader {
    pub tag: Tag,
    pub vr: VR,
    /// The declared length of the value; `UNDEFINED_LENGTH` where the value
    /// goes on to a delimiter.
    pub len: u32,
}

/// The failure of kind `kind` at `offset`.
pub open spec fn failure(kind: DecodeErrorKind, offset: int) -> DecodeFailure {
    DecodeFailure { kind, offset }
}

/// The tag stored at `pos`.
pub open spec fn tag_at(b: Seq<u8>, pos: int, big_endian: bool) -> Tag {
    Tag { group: u16_at(b, pos, big_endian), element: u16_at(b, pos + 2, big_endian) }
}

/// The header at `pos`, and the position of the value behind it.
///
/// Under explicit encoding the header holds the two letters of the
/// representation, then a length of two bytes, or two reserved bytes and a
/// length of four. Under implicit encoding it holds a length of four bytes,
/// and the representation is the one that the dictionary gives for the tag,
/// with the private creators named in `preceding`. A tag of the group of
/// items and delimiters is always followed by a length of four bytes.
pub open spec fn spec_decode_header(
    b: Seq<u8>,
    pos: int,
    end: int,
    enc: Encoding,
    d: DictionaryModel,
    preceding: Seq<ElementModel>,
) -> Result<(ElementHeader, int), DecodeFailure> {
    if pos + 8 > end {
        Err(failure(DecodeErrorKind::UnexpectedEof, pos))
    } else {
        let tag = tag_at(b, pos, enc.big_endian);
        if tag.group == 0xFFFE {
            Ok((ElementHeader { tag, vr: VR::UN, len: u32_at(b, pos + 4, enc.big_endian) }, pos + 8))
        } else if !enc.explicit_vr {
            Ok(
                (
                    ElementHeader {
                        tag,
                        vr: spec_resolve_vr(d, preceding, tag),
                        len: u32_at(b, pos + 4, enc.big_endian),
                    },
                    pos + 8,
                ),
            )
        } else {
            let vr = spec_from_code(b[pos + 4], b[pos + 5]);
            if spec_long_length(vr) {
                if pos + 12 > end {
                    Err(failure(DecodeErrorKind::UnexpectedEof, pos))
                } else {
                    Ok((ElementHeader { tag, vr, len: u32_at(b, pos + 8, enc.big_endian) }, pos + 12))
                }
            } else {
                Ok(
                    (
                        ElementHeader { tag, vr, len: u16_at(b, pos + 6, enc.big_endian) as u32 },
                        pos + 8,
                    ),
                )
            }
        }
    }
}

/// Whether an element that is no sequence may have the undefined length:
/// only Pixel Data, under a transfer syntax that stores it in fragments.
pub open spec fn is_encapsulated_pixel_data(h: ElementHeader, enc: Encoding) -> bool {
    h.tag == spec_pixel_data_tag() && (h.vr == VR::OB || h.vr == VR::OW) && enc.encapsulated
}

/// The value that the fragments of encapsulated pixel data make: the first
/// is the basic offset table.
pub open spec fn pixel_value(frags: Seq<Seq<u8>>) -> ValueModel {
    if frags.len() == 0 {
        ValueModel::PixelSequence { offset_table: Seq::empty(), fragments: Seq::empty() }
    } else {
        ValueModel::PixelSequence { offset_table: frags[0], fragments: frags.drop_first() }
    }
}

/// The fragments from `pos` up to the sequence delimiter, after those in
/// `acc`, and the position behind the delimiter.
pub open spec fn spec_decode_fragments(
    b: Seq<u8>,
    pos: int,
    end: int,
    big_endian: bool,
    acc: Seq<Seq<u8>>,
) -> Result<(Seq<Seq<u8>>, int), DecodeFailure>
    decreases end - pos,
{
    if pos >= end {
        Err(failure(DecodeErrorKind::MissingDelimiter, pos))
    } else if pos + 8 > end {
        Err(failure(DecodeErrorKind::UnexpectedEof, pos))
    } else {
        let tag = tag_at(b, pos, big_endian);
        let len = u32_at(b, pos + 4, big_endian);
        if tag == spec_sequence_delimiter_tag() {
            Ok((acc, pos + 8))
        } else if tag != spec_item_tag() {
            Err(failure(DecodeErrorKind::UnexpectedTag, pos))
        } else if len == UNDEFINED_LENGTH {
            Err(failure(DecodeErrorKind::InvalidElementLength, pos))
        } else if pos + 8 + len > end {
            Err(failure(DecodeErrorKind::UnexpectedEof, pos + 8))
        } else {
            spec_decode_fragments(
                b,
                pos + 8 + len,
                end,
                big_endian,
                acc.push(b.subrange(pos + 8, pos + 8 + len)),
            )
        }
    }
}

/// The element at `pos`, and the position behind it.
pub open spec fn spec_decode_element(
    b: Seq<u8>,
    pos: int,
    end: int,
    enc: Encoding,
    d: DictionaryModel,
    preceding: Seq<ElementModel>,
) -> Result<(ElementModel, int), DecodeFailure>
    decreases end - pos, 1int,
{
    match spec_decode_header(b, pos, end, enc, d, preceding) {
        Err(f) => Err(f),
        Ok((h, vpos)) => {
            if h.tag.group == 0xFFFE {
                Err(failure(DecodeErrorKind::UnexpectedTag, pos))
            } else if h.len == UNDEFINED_LENGTH {
                if h.vr == VR::SQ {
                    match spec_decode_items(b, vpos, end, enc, d, Seq::empty(), true) {
                        Err(f) => Err(f),
                        Ok((items, next)) => Ok(
                            (
                                ElementModel {
                                    tag: h.tag,
                                    vr: h.vr,
                                    value: ValueModel::Sequence(items),
                                },
                                next,
                            ),
                        ),
                    }
                } else if is_encapsulated_pixel_data(h, enc) {
                    match spec_decode_fragments(b, vpos, end, enc.big_endian, Seq::empty()) {
                        Err(f) => Err(f),
                        Ok((frags, next)) => Ok(
                            (ElementModel { tag: h.tag, vr: h.vr, value: pixel_value(frags) }, next),
                        ),
                    }
                } else {
                    Err(failure(DecodeErrorKind::InvalidElementLength, pos))
                }
            } else if vpos + h.len > end {
                Err(failure(DecodeErrorKind::UnexpectedEof, vpos))
            } else if h.vr == VR::SQ {
                match spec_decode_items(b, vpos, vpos + h.len, enc, d, Seq::empty(), false) {
                    Err(f) => Err(f),
                    Ok((items, next)) => Ok(
                        (
                            ElementModel {
                                tag: h.tag,
                                vr: h.vr,
                                value: ValueModel::Sequence(items),
                            },
                            vpos + h.len,
                        ),
                    ),
                }
            } else if h.len == 0 {
                Ok((ElementModel { tag: h.tag, vr: h.vr, value: ValueModel::Empty }, vpos))
            } else {
                match spec_decode_primitive(
                    h.vr,
                    b.subrange(vpos, vpos + h.len),
                    enc.big_endian,
                ) {
                    None => Err(failure(DecodeErrorKind::InvalidElementLength, pos)),
                    Some(p) => Ok(
                        (
                            ElementModel { tag: h.tag, vr: h.vr, value: ValueModel::Primitive(p) },
                            vpos + h.len,
                        ),
                    ),
                }
            }
        },
    }
}

/// The data set that the elements from `pos` on make when they are put,
/// one after the other, into `acc`, and the position behind them.
///
/// Where `delimited` holds the data set is an item of undefined length: it
/// ends behind the item delimiter. Else it ends at `end`.
pub open spec fn spec_decode_dataset(
    b: Seq<u8>,
    pos: int,
    end: int,
    enc: Encoding,
    d: DictionaryModel,
    acc: Seq<ElementModel>,
    delimited: bool,
) -> Result<(Seq<ElementModel>, int), DecodeFailure>
    decreases end - pos, 2int,
{
    if pos >= end {
        if delimited {
            Err(failure(DecodeErrorKind::MissingDelimiter, pos))
        } else {
            Ok((acc, pos))
        }
    } else if delimited && pos + 8 <= end && tag_at(b, pos, enc.big_endian)
        == spec_item_delimiter_tag() {
        Ok((acc, pos + 8))
    } else {
        match spec_decode_element(b, pos, end, enc, d, acc) {
            Err(f) => Err(f),
            Ok((e, next)) => if next <= pos || next > end {
                Err(failure(DecodeErrorKind::UnexpectedEof, pos))
            } else {
                spec_decode_dataset(b, next, end, enc, d, spec_put(acc, e), delimited)
            },
        }
    }
}

/// The items from `pos` on, after those in `acc`, and the position behind
/// them.
///
/// Where `delimited` holds the sequence is of undefined length: it ends
/// behind the sequence delimiter. Else it ends at `end`.
pub open spec fn spec_decode_items(
    b: Seq<u8>,
    pos: int,
    end: int,
    enc: Encoding,
    d: DictionaryModel,
    acc: Seq<Seq<ElementModel>>,
    delimited: bool,
) -> Result<(Seq<Seq<ElementModel>>, int), DecodeFailure>
    decreases end - pos, 3int,
{
    if pos >= end {
        if delimited {
            Err(failure(DecodeErrorKind::MissingDelimiter, pos))
        } else {
            Ok((acc, pos))
        }
    } else if pos + 8 > end {
        Err(failure(DecodeErrorKind::UnexpectedEof, pos))
    } else {
        let tag = tag_at(b, pos, enc.big_endian);
        let len = u32_at(b, pos + 4, enc.big_endian);
        if tag == spec_sequence_delimiter_tag() {
            if delimited {
                Ok((acc, pos + 8))
            } else {
                Err(failure(DecodeErrorKind::UnexpectedTag, pos))
            }
        } else if tag != spec_item_tag() {
            Err(failure(DecodeErrorKind::UnexpectedTag, pos))
        } else if len != UNDEFINED_LENGTH && pos + 8 + len > end {
            Err(failure(DecodeErrorKind::UnexpectedEof, pos + 8))
        } else {
            let inner = if len == UNDEFINED_LENGTH {
                spec_decode_dataset(b, pos + 8, end, enc, d, Seq::empty(), true)
            } else {
                spec_decode_dataset(b, pos + 8, pos + 8 + len, enc, d, Seq::empty(), false)
            };
            match inner {
                Err(f) => Err(f),
                Ok((item, next)) => if next <= pos || next > end {
                    Err(failure(DecodeErrorKind::UnexpectedEof, pos))
                } else {
                    spec_decode_items(b, next, end, enc, d, acc.push(item), delimited)
                },
            }
        }
    }
}

/// The tag to flag for the element at `pos`: that of an element whose
/// declared length is odd.
pub open spec fn spec_flag_at(
    b: Seq<u8>,
    pos: int,
    end: int,
    enc: Encoding,
    d: DictionaryModel,
    preceding: Seq<ElementModel>,
) -> Option<Tag> {
    match spec_decode_header(b, pos, end, enc, d, preceding) {
        Ok((h, vpos)) => if h.len != UNDEFINED_LENGTH && h.len % 2 == 1 {
            Some(h.tag)
        } else {
            None
        },
        Err(_) => None,
    }
}

/// The tag to flag for the element at `pos`, as a sequence: empty where
/// there is none.
pub open spec fn own_flag(
    b: Seq<u8>,
    pos: int,
    end: int,
    enc: Encoding,
    d: DictionaryModel,
    preceding: Seq<ElementModel>,
) -> Seq<Tag> {
    match spec_flag_at(b, pos, end, enc, d, preceding) {
        Some(t) => seq![t],
        None => Seq::empty(),
    }
}

/// The tags to flag in the element at `pos`, in the order of the stream:
/// that of the element itself where its declared length is odd, then those
/// of the elements in its items.
pub open spec fn spec_flagged_element(
    b: Seq<u8>,
    pos: int,
    end: int,
    enc: Encoding,
    d: DictionaryModel,
    preceding: Seq<ElementModel>,
) -> Seq<Tag>
    decreases end - pos, 1int,
{
    match spec_decode_header(b, pos, end, enc, d, preceding) {
        Err(_) => Seq::empty(),
        Ok((h, vpos)) => {
            if h.tag.group == 0xFFFE {
                Seq::empty()
            } else if h.len == UNDEFINED_LENGTH {
                if h.vr == VR::SQ {
                    spec_flagged_items(b, vpos, end, enc, d, true)
                } else {
                    Seq::empty()
                }
            } else if vpos + h.len > end {
                Seq::empty()
            } else if h.vr == VR::SQ {
                own_flag(b, pos, end, enc, d, preceding) + spec_flagged_items(
                    b,
                    vpos,
                    vpos + h.len,
                    enc,
                    d,
                    false,
                )
            } else {
                own_flag(b, pos, end, enc, d, preceding)
            }
        },
    }
}

/// The tags to flag in the data set that is read from `pos` on into `acc`,
/// in the order of the stream.
pub open spec fn spec_flagged_dataset(
    b: Seq<u8>,
    pos: int,
    end: int,
    enc: Encoding,
    d: DictionaryModel,
    acc: Seq<ElementModel>,
    delimited: bool,
) -> Seq<Tag>
    decreases end - pos, 2int,
{
    if pos >= end {
        Seq::empty()
    } else if delimited && pos + 8 <= end && tag_at(b, pos, enc.big_endian)
        == spec_item_delimiter_tag() {
        Seq::empty()
    } else {
        match spec_decode_element(b, pos, end, enc, d, acc) {
            Err(f) => Seq::empty(),
            Ok((e, next)) => if next <= pos || next > end {
                Seq::empty()
            } else {
                spec_flagged_element(b, pos, end, enc, d, acc) + spec_flagged_dataset(
                    b,
                    next,
                    end,
                    enc,
                    d,
                    spec_put(acc, e),
                    delimited,
                )
            },
        }
    }
}

/// The tags to flag in the items from `pos` on, in the order of the stream.
pub open spec fn spec_flagged_items(
    b: Seq<u8>,
    pos: int,
    end: int,
    enc: Encoding,
    d: DictionaryModel,
    delimited: bool,
) -> Seq<Tag>
    decreases end - pos, 3int,
{
    if pos >= end || pos + 8 > end {
        Seq::empty()
    } else {
        let tag = tag_at(b, pos, enc.big_endian);
        let len = u32_at(b, pos + 4, enc.big_endian);
        if tag != spec_item_tag() || (len != UNDEFINED_LENGTH && pos + 8 + len > end) {
            Seq::empty()
        } else {
            let inner_end = if len == UNDEFINED_LENGTH {
                end
            } else {
                pos + 8 + len
            };
            match spec_decode_dataset(
                b,
                pos + 8,
                inner_end,
                enc,
                d,
                Seq::empty(),
                len == UNDEFINED_LENGTH,
            ) {
                Err(f) => Seq::empty(),
                Ok((item, next)) => if next <= pos || next > end {
                    Seq::empty()
                } else {
                    spec_flagged_dataset(
                        b,
                        pos + 8,
                        inner_end,
                        enc,
                        d,
                        Seq::empty(),
                        len == UNDEFINED_LENGTH,
                    ) + spec_flagged_items(b, next, end, enc, d, delimited)
                },
            }
        }
    }
}

impl ElementHeader {
    /// Whether the declared length is odd: such a value lacks the byte that
    /// pads it to an even length. It is read all the same.
    pub fn has_odd_length(&self) -> (r: bool)
        ensures
            r == (self.len != UNDEFINED_LENGTH && self.len % 2 == 1),
    {
        self.len != UNDEFINED_LENGTH && self.len % 2 == 1
    }

    /// Whether the declared length is the undefined length.
    pub fn has_undefined_length(&self) -> (r: bool)
        ensures
            r == (self.len == UNDEFINED_LENGTH),
    {
        self.len == UNDEFINED_LENGTH
    }
}

/// Reads the tag at `pos`.
pub fn read_tag(bytes: &[u8], pos: usize, big_endian: bool) -> (t: Tag)
    requires
        pos + 4 <= bytes@.len(),
    ensures
        t == tag_at(bytes@, pos as int, big_endian),
{
    let total = bytes.len();
    assert(pos + 4 <= total);
    let group = read_u16(bytes, pos, big_endian);
    let element = read_u16(bytes, pos + 2, big_endian);
    Tag { group, element }
}

/// Reads the header of the element at `pos`.
///
/// Fails with `UnexpectedEof` at `pos` exactly where the window holds fewer
/// bytes than the header takes.
pub fn decode_header(
    bytes: &[u8],
    pos: usize,
    end: usize,
    enc: Encoding,
    dictionary: &Dictionary,
    preceding: &DataSet,
) -> (r: Result<(ElementHeader, usize), DecodeError>)
    requires
        pos <= end <= bytes@.len(),
    ensures
        match r {
            Ok((h, vpos)) => spec_decode_header(
                bytes@,
                pos as int,
                end as int,
                enc,
                dictionary@,
                preceding@,
            ) matches Ok(v) && v.0 == h && v.1 == vpos && pos + 8 <= vpos <= end,
            Err(e) => spec_decode_header(
                bytes@,
                pos as int,
                end as int,
                enc,
                dictionary@,
                preceding@,
            ) matches Err(f) && f == e@,
        },
{
    if end - pos < 8 {
        return Err(decode_error(DecodeErrorKind::UnexpectedEof, pos));
    }
    let tag = read_tag(bytes, pos, enc.big_endian);
    if tag.group == 0xFFFE {
        let len = read_u32(bytes, pos + 4, enc.big_endian);
        Ok((ElementHeader { tag, vr: VR::UN, len }, pos + 8))
    } else if !enc.explicit_vr {
        let len = read_u32(bytes, pos + 4, enc.big_endian);
        let vr = dictionary.resolve_vr(preceding, tag);
        Ok((ElementHeader { tag, vr, len }, pos + 8))
    } else {
        let vr = VR::from_code(bytes[pos + 4], bytes[pos + 5]);
        if vr.has_long_length() {
            if end - pos < 12 {
                Err(decode_error(DecodeErrorKind::UnexpectedEof, pos))
            } else {
                let len = read_u32(bytes, pos + 8, enc.big_endian);
                Ok((ElementHeader { tag, vr, len }, pos + 12))
            }
        } else {
            let len = read_u16(bytes, pos + 6, enc.big_endian);
            Ok((ElementHeader { tag, vr, len: len as u32 }, pos + 8))
        }
    }
}

/// Reads the fragments of encapsulated pixel data from `pos` up to the
/// sequence delimiter.
pub fn decode_fragments(bytes: &[u8], pos: usize, end: usize, big_endian: bool) -> (r: Result<
    (Vec<Vec<u8>>, usize),
    DecodeError,
>)
    requires
        pos <= end <= bytes@.len(),
    ensures
        match r {
            Ok((frags, next)) => spec_decode_fragments(
                bytes@,
                pos as int,
                end as int,
                big_endian,
                Seq::empty(),
            ) matches Ok(v) && v.0 == views(frags@) && v.1 == next && pos < next <= end,
            Err(e) => spec_decode_fragments(
                bytes@,
                pos as int,
                end as int,
                big_endian,
                Seq::empty(),
            ) matches Err(f) && f == e@,
        },
{
    let mut frags: Vec<Vec<u8>> = Vec::new();
    let mut p = pos;
    assert(views(frags@) =~= Seq::<Seq<u8>>::empty());
    loop
        invariant
            pos <= p <= end <= bytes@.len(),
            spec_decode_fragments(bytes@, pos as int, end as int, big_endian, Seq::empty())
                == spec_decode_fragments(bytes@, p as int, end as int, big_endian, views(frags@)),
        decreases end - p,
    {
        if p >= end {
            return Err(decode_error(DecodeErrorKind::MissingDelimiter, p));
        }
        if end - p < 8 {
            return Err(decode_error(DecodeErrorKind::UnexpectedEof, p));
        }
        let tag = read_tag(bytes, p, big_endian);
        let len = read_u32(bytes, p + 4, big_endian);
        if tag.same(&Tag::sequence_delimiter()) {
            return Ok((frags, p + 8));
        }
        if !tag.same(&Tag::item()) {
            return Err(decode_error(DecodeErrorKind::UnexpectedTag, p));
        }
        if len == UNDEFINED_LENGTH {
            return Err(decode_error(DecodeErrorKind::InvalidElementLength, p));
        }
        if len as usize > end - (p + 8) {
            return Err(decode_error(DecodeErrorKind::UnexpectedEof, p + 8));
        }
        let ghost before = views(frags@);
        let frag = copy_range(bytes, p + 8, p + 8 + len as usize);
        frags.push(frag);
        assert(views(frags@) =~= before.push(bytes@.subrange(p + 8, p + 8 + len)));
        p = p + 8 + len as usize;
    }
}

/// Reads the element at `pos` of the window `pos..end`.
///
/// `preceding` holds the elements of the same data set that were read
/// before: under implicit encoding the private creators in it decide how a
/// private tag is read.
///
/// On success the element is the one that the stream holds at `pos`, the
/// position returned lies behind it and beyond `pos`, the kind of its
/// value is the one that its representation prescribes, in the element and
/// in every item below it, it holds items exactly where it is a sequence
/// element, and the tags of the elements with an odd declared length, in
/// the element and below it, are added to `flagged`. Each failure comes
/// exactly where the stream is as the error says, with the offset at which
/// that was found.
pub fn decode_element(
    bytes: &[u8],
    pos: usize,
    end: usize,
    enc: Encoding,
    dictionary: &Dictionary,
    preceding: &DataSet,
    flagged: &mut Vec<Tag>,
) -> (r: Result<(DataElement, usize), DecodeError>)
    requires
        pos <= end <= bytes@.len(),
    ensures
        match r {
            Ok((e, next)) => {
                &&& spec_decode_element(
                    bytes@,
                    pos as int,
                    end as int,
                    enc,
                    dictionary@,
                    preceding@,
                ) matches Ok(v) && v.0 == e@ && v.1 == next
                &&& pos < next <= end
                &&& kinds_match(e@)
                &&& (e.vr == VR::SQ) == (e@.value is Sequence)
                &&& final(flagged)@ == old(flagged)@ + spec_flagged_element(
                    bytes@,
                    pos as int,
                    end as int,
                    enc,
                    dictionary@,
                    preceding@,
                )
            },
            Err(e) => spec_decode_element(
                bytes@,
                pos as int,
                end as int,
                enc,
                dictionary@,
                preceding@,
            ) matches Err(f) && f == e@,
        },
    decreases end - pos, 1int,
{
    let (h, vpos) = match decode_header(bytes, pos, end, enc, dictionary, preceding) {
        Ok(x) => x,
        Err(e) => {
            return Err(e);
        },
    };
    if h.tag.group == 0xFFFE {
        return Err(decode_error(DecodeErrorKind::UnexpectedTag, pos));
    }
    if h.len == UNDEFINED_LENGTH {
        if h.vr == VR::SQ {
            match decode_items(bytes, vpos, end, enc, dictionary, true, flagged) {
                Err(e) => Err(e),
                Ok((items, next)) => {
                    proof {
                        lemma_sequence_model(items);
                    }
                    let e = DataElement { tag: h.tag, vr: h.vr, value: Value::Sequence(items) };
                    Ok((e, next))
                },
            }
        } else if h.tag.same(&Tag::pixel_data()) && (h.vr == VR::OB || h.vr == VR::OW)
            && enc.encapsulated {
            match decode_fragments(bytes, vpos, end, enc.big_endian) {
                Err(e) => Err(e),
                Ok((frags, next)) => {
                    let mut frags = frags;
                    let ghost all = views(frags@);
                    let offset_table = if frags.len() == 0 {
                        Vec::new()
                    } else {
                        frags.remove(0)
                    };
                    let e = DataElement {
                        tag: h.tag,
                        vr: h.vr,
                        value: Value::PixelSequence(PixelSequence { offset_table, fragments: frags }),
                    };
                    proof {
                        if all.len() > 0 {
                            assert(views(frags@) =~= all.drop_first());
                        } else {
                            assert(views(frags@) =~= Seq::<Seq<u8>>::empty());
                        }
                        assert(flagged@ + Seq::<Tag>::empty() =~= flagged@);
                    }
                    Ok((e, next))
                },
            }
        } else {
            Err(decode_error(DecodeErrorKind::InvalidElementLength, pos))
        }
    } else {
        let len = h.len as usize;
        if len > end - vpos {
            return Err(decode_error(DecodeErrorKind::UnexpectedEof, vpos));
        }
        if h.has_odd_length() {
            flagged.push(h.tag);
        }
        let ghost own = own_flag(
            bytes@,
            pos as int,
            end as int,
            enc,
            dictionary@,
            preceding@,
        );
        assert(flagged@ =~= old(flagged)@ + own);
        if h.vr == VR::SQ {
            match decode_items(bytes, vpos, vpos + len, enc, dictionary, false, flagged) {
                Err(e) => Err(e),
                Ok((items, _)) => {
                    proof {
                        lemma_sequence_model(items);
                        let nested = spec_flagged_items(
                            bytes@,
                            vpos as int,
                            vpos + len,
                            enc,
                            dictionary@,
                            false,
                        );
                        assert(flagged@ =~= old(flagged)@ + (own + nested));
                    }
                    let e = DataElement { tag: h.tag, vr: h.vr, value: Value::Sequence(items) };
                    Ok((e, vpos + len))
                },
            }
        } else if len == 0 {
            Ok((DataElement { tag: h.tag, vr: h.vr, value: Value::Empty }, vpos))
        } else {
            let part = slice_subrange(bytes, vpos, vpos + len);
            match decode_primitive(h.vr, part, enc.big_endian) {
                None => Err(decode_error(DecodeErrorKind::InvalidElementLength, pos)),
                Some(p) => Ok(
                    (DataElement { tag: h.tag, vr: h.vr, value: Value::Primitive(p) }, vpos + len),
                ),
            }
        }
    }
}

/// Reads the items of a sequence from `pos` on.
///
/// Where `delimited` holds the items go on to the sequence delimiter, else
/// to `end`. On success every item is well formed, and the tags of the
/// elements with an odd declared length are added to `flagged`.
pub fn decode_items(
    bytes: &[u8],
    pos: usize,
    end: usize,
    enc: Encoding,
    dictionary: &Dictionary,
    delimited: bool,
    flagged: &mut Vec<Tag>,
) -> (r: Result<(Vec<DataSet>, usize), DecodeError>)
    requires
        pos <= end <= bytes@.len(),
    ensures
        match r {
            Ok((items, next)) => {
                &&& spec_decode_items(
                    bytes@,
                    pos as int,
                    end as int,
                    enc,
                    dictionary@,
                    Seq::empty(),
                    delimited,
                ) matches Ok(v) && v.0 == items_model(items@) && v.1 == next
                &&& pos <= next <= end
                &&& delimited ==> pos < next
                &&& forall|i: int|
                    0 <= i < items@.len() ==> well_formed(#[trigger] items_model(items@)[i])
                &&& final(flagged)@ == old(flagged)@ + spec_flagged_items(
                    bytes@,
                    pos as int,
                    end as int,
                    enc,
                    dictionary@,
                    delimited,
                )
            },
            Err(e) => spec_decode_items(
                bytes@,
                pos as int,
                end as int,
                enc,
                dictionary@,
                Seq::empty(),
                delimited,
            ) matches Err(f) && f == e@,
        },
    decreases end - pos, 3int,
{
    let mut items: Vec<DataSet> = Vec::new();
    let mut p = pos;
    assert(items_model(items@) =~= Seq::<Seq<ElementModel>>::empty());
    loop
        invariant
            pos <= p <= end <= bytes@.len(),
            spec_decode_items(
                bytes@,
                pos as int,
                end as int,
                enc,
                dictionary@,
                Seq::empty(),
                delimited,
            ) == spec_decode_items(
                bytes@,
                p as int,
                end as int,
                enc,
                dictionary@,
                items_model(items@),
                delimited,
            ),
            forall|i: int| 0 <= i < items@.len() ==> well_formed(#[trigger] items_model(items@)[i]),
            old(flagged)@ + spec_flagged_items(
                bytes@,
                pos as int,
                end as int,
                enc,
                dictionary@,
                delimited,
            ) == flagged@ + spec_flagged_items(
                bytes@,
                p as int,
                end as int,
                enc,
                dictionary@,
                delimited,
            ),
        decreases end - p,
    {
        assert(flagged@ + Seq::<Tag>::empty() =~= flagged@);
        if p >= end {
            if delimited {
                return Err(decode_error(DecodeErrorKind::MissingDelimiter, p));
            } else {
                return Ok((items, p));
            }
        }
        if end - p < 8 {
            return Err(decode_error(DecodeErrorKind::UnexpectedEof, p));
        }
        let tag = read_tag(bytes, p, enc.big_endian);
        let len = read_u32(bytes, p + 4, enc.big_endian);
        if tag.same(&Tag::sequence_delimiter()) {
            if delimited {
                return Ok((items, p + 8));
            } else {
                return Err(decode_error(DecodeErrorKind::UnexpectedTag, p));
            }
        }
        if !tag.same(&Tag::item()) {
            return Err(decode_error(DecodeErrorKind::UnexpectedTag, p));
        }
        if len != UNDEFINED_LENGTH && len as usize > end - (p + 8) {
            return Err(decode_error(DecodeErrorKind::UnexpectedEof, p + 8));
        }
        let ghost before_flags = flagged@;
        let ghost rest_here = spec_flagged_items(
            bytes@,
            p as int,
            end as int,
            enc,
            dictionary@,
            delimited,
        );
        let inner = if len == UNDEFINED_LENGTH {
            decode_dataset_in(bytes, p + 8, end, enc, dictionary, true, flagged)
        } else {
            decode_dataset_in(bytes, p + 8, p + 8 + len as usize, enc, dictionary, false, flagged)
        };
        match inner {
            Err(e) => {
                return Err(e);
            },
            Ok((item, next)) => {
                let ghost before = items_model(items@);
                let ghost m = item@;
                items.push(item);
                proof {
                    assert(items_model(items@) =~= before.push(m));
                    let rest_next = spec_flagged_items(
                        bytes@,
                        next as int,
                        end as int,
                        enc,
                        dictionary@,
                        delimited,
                    );
                    assert(before_flags + rest_here =~= flagged@ + rest_next);
                }
                p = next;
            },
        }
    }
}

/// Reads the data set that stands in the window `pos..end`: its elements
/// are put, one after the other, into an empty data set.
///
/// Where `delimited` holds the data set is an item of undefined length and
/// ends behind its item delimiter, else it ends at `end`. On success the
/// data set is well formed, and the tags of the elements with an odd
/// declared length are added to `flagged`.
pub fn decode_dataset_in(
    bytes: &[u8],
    pos: usize,
    end: usize,
    enc: Encoding,
    dictionary: &Dictionary,
    delimited: bool,
    flagged: &mut Vec<Tag>,
) -> (r: Result<(DataSet, usize), DecodeError>)
    requires
        pos <= end <= bytes@.len(),
    ensures
        match r {
            Ok((ds, next)) => {
                &&& spec_decode_dataset(
                    bytes@,
                    pos as int,
                    end as int,
                    enc,
                    dictionary@,
                    Seq::empty(),
                    delimited,
                ) matches Ok(v) && v.0 == ds@ && v.1 == next
                &&& pos <= next <= end
                &&& delimited ==> pos < next
                &&& well_formed(ds@)
                &&& final(flagged)@ == old(flagged)@ + spec_flagged_dataset(
                    bytes@,
                    pos as int,
                    end as int,
                    enc,
                    dictionary@,
                    Seq::empty(),
                    delimited,
                )
            },
            Err(e) => spec_decode_dataset(
                bytes@,
                pos as int,
                end as int,
                enc,
                dictionary@,
                Seq::empty(),
                delimited,
            ) matches Err(f) && f == e@,
        },
    decreases end - pos, 2int,
{
    let mut ds = DataSet::new();
    let mut p = pos;
    loop
        invariant
            pos <= p <= end <= bytes@.len(),
            spec_decode_dataset(
                bytes@,
                pos as int,
                end as int,
                enc,
                dictionary@,
                Seq::empty(),
                delimited,
            ) == spec_decode_dataset(
                bytes@,
                p as int,
                end as int,
                enc,
                dictionary@,
                ds@,
                delimited,
            ),
            well_formed(ds@),
            old(flagged)@ + spec_flagged_dataset(
                bytes@,
                pos as int,
                end as int,
                enc,
                dictionary@,
                Seq::empty(),
                delimited,
            ) == flagged@ + spec_flagged_dataset(
                bytes@,
                p as int,
                end as int,
                enc,
                dictionary@,
                ds@,
                delimited,
            ),
        decreases end - p,
    {
        assert(flagged@ + Seq::<Tag>::empty() =~= flagged@);
        if p >= end {
            if delimited {
                return Err(decode_error(DecodeErrorKind::MissingDelimiter, p));
            } else {
                return Ok((ds, p));
            }
        }
        if delimited && end - p >= 8 {
            let tag = read_tag(bytes, p, enc.big_endian);
            if tag.same(&Tag::item_delimiter()) {
                return Ok((ds, p + 8));
            }
        }
        let ghost before_flags = flagged@;
        let ghost rest_here = spec_flagged_dataset(
            bytes@,
            p as int,
            end as int,
            enc,
            dictionary@,
            ds@,
            delimited,
        );
        match decode_element(bytes, p, end, enc, dictionary, &ds, flagged) {
            Err(e) => {
                return Err(e);
            },
            Ok((e, next)) => {
                ds.put(e);
                proof {
                    let rest_next = spec_flagged_dataset(
                        bytes@,
                        next as int,
                        end as int,
                        enc,
                        dictionary@,
                        ds@,
                        delimited,
                    );
                    assert(before_flags + rest_here =~= flagged@ + rest_next);
                }
                p = next;
            },
        }
    }
}

/// Decodes a whole stream as one data set and says which elements to flag.
///
/// On success the data set is the one that the elements of the stream make
/// when they are put into it in their order, it is well formed (its tags
/// stand in strictly increasing order, the kind of every value is the one
/// that its representation prescribes, and every sequence element holds
/// items), and the whole stream was read. The tags returned with it are
/// those of the elements, at any depth, whose declared length is odd, in the
/// order of the stream: such a value lacks its padding and was read all the
/// same. Each failure comes exactly where the stream is as the error says.
pub fn decode_dataset_flagged(bytes: &[u8], enc: Encoding, dictionary: &Dictionary) -> (r: Result<
    (DataSet, Vec<Tag>),
    DecodeError,
>)
    ensures
        match r {
            Ok((ds, flagged)) => {
                &&& spec_decode_dataset(
                    bytes@,
                    0,
                    bytes@.len() as int,
                    enc,
                    dictionary@,
                    Seq::empty(),
                    false,
                ) matches Ok(v) && v.0 == ds@ && v.1 == bytes@.len()
                &&& well_formed(ds@)
                &&& flagged@ == spec_flagged_dataset(
                    bytes@,
                    0,
                    bytes@.len() as int,
                    enc,
                    dictionary@,
                    Seq::empty(),
                    false,
                )
            },
            Err(e) => spec_decode_dataset(
                bytes@,
                0,
                bytes@.len() as int,
                enc,
                dictionary@,
                Seq::empty(),
                false,
            ) matches Err(f) && f == e@,
        },
{
    let mut flagged: Vec<Tag> = Vec::new();
    match decode_dataset_in(bytes, 0, bytes.len(), enc, dictionary, false, &mut flagged) {
        Ok((ds, next)) => {
            proof {
                lemma_dataset_ends_at_end(
                    bytes@,
                    0,
                    bytes@.len() as int,
                    enc,
                    dictionary@,
                    Seq::empty(),
                );
                let all = spec_flagged_dataset(
                    bytes@,
                    0,
                    bytes@.len() as int,
                    enc,
                    dictionary@,
                    Seq::empty(),
                    false,
                );
                assert(Seq::<Tag>::empty() + all =~= all);
            }
            Ok((ds, flagged))
        },
        Err(e) => Err(e),
    }
}

/// Decodes a whole stream as one data set.
///
/// On success the data set is the one that the elements of the stream make
/// when they are put into it in their order, it is well formed (its tags
/// stand in strictly increasing order, the kind of every value is the one
/// that its representation prescribes, and every sequence element holds
/// items), and the whole stream was read. Each failure comes exactly where
/// the stream is as the error says.
pub fn decode_dataset(bytes: &[u8], enc: Encoding, dictionary: &Dictionary) -> (r: Result<
    DataSet,
    DecodeError,
>)
    ensures
        match r {
            Ok(ds) => spec_decode_dataset(
                bytes@,
                0,
                bytes@.len() as int,
                enc,
                dictionary@,
                Seq::empty(),
                false,
            ) matches Ok(v) && v.0 == ds@ && v.1 == bytes@.len() && well_formed(ds@),
            Err(e) => spec_decode_dataset(
                bytes@,
                0,
                bytes@.len() as int,
                enc,
                dictionary@,
                Seq::empty(),
                false,
            ) matches Err(f) && f == e@,
        },
{
    match decode_dataset_flagged(bytes, enc, dictionary) {
        Ok((ds, _)) => Ok(ds),
        Err(e) => Err(e),
    }
}

/// A position in a stream from which elements are read one at a time,
/// with the tags of the elements read so far whose declared length was odd.
#[derive(Clone, Debug, PartialEq, Eq)]
pub struct ElementCursor {
    pub pos: usize,
    /// The tags of the elements, at any depth, that were stored without the
    /// byte that pads a value to an even length. They were read all the
    /// same.
    pub flagged: Vec<Tag>,
}

impl ElementCursor {
    /// A cursor at the start of a stream.
    pub fn new() -> (c: ElementCursor)
        ensures
            c.pos == 0,
            c.flagged@.len() == 0,
    {
        ElementCursor { pos: 0, flagged: Vec::new() }
    }

    /// Reads the next element of the stream and puts it into `into`, which
    /// holds the elements read before.
    ///
    /// At the end of the stream nothing changes and the answer is
    /// `Ok(false)`. Else one element is read: on success it is put into
    /// `into`, the cursor moves behind it, which is beyond where it was, the
    /// tags to flag in it are added to those of the cursor, and the answer
    /// is `Ok(true)`; on failure nothing changes and the error is that of
    /// the element.
    pub fn read_next(
        &mut self,
        bytes: &[u8],
        enc: Encoding,
        dictionary: &Dictionary,
        into: &mut DataSet,
    ) -> (r: Result<bool, DecodeError>)
        ensures
            old(self).pos >= bytes@.len() ==> r == Ok::<bool, DecodeError>(false) && *final(self)
                == *old(self) && final(into)@ == old(into)@,
            old(self).pos < bytes@.len() ==> match spec_decode_element(
                bytes@,
                old(self).pos as int,
                bytes@.len() as int,
                enc,
                dictionary@,
                old(into)@,
            ) {
                Ok(v) => {
                    &&& r == Ok::<bool, DecodeError>(true)
                    &&& final(self).pos == v.1
                    &&& old(self).pos < final(self).pos <= bytes@.len()
                    &&& final(self).flagged@ == old(self).flagged@ + spec_flagged_element(
                        bytes@,
                        old(self).pos as int,
                        bytes@.len() as int,
                        enc,
                        dictionary@,
                        old(into)@,
                    )
                    &&& final(into)@ == spec_put(old(into)@, v.0)
                    &&& well_formed(old(into)@) ==> well_formed(final(into)@)
                },
                Err(f) => {
                    &&& r matches Err(e) && e@ == f
                    &&& *final(self) == *old(self)
                    &&& final(into)@ == old(into)@
                },
            },
    {
        let end = bytes.len();
        if self.pos >= end {
            return Ok(false);
        }
        let mut found: Vec<Tag> = Vec::new();
        match decode_element(bytes, self.pos, end, enc, dictionary, into, &mut found) {
            Err(e) => Err(e),
            Ok((e, next)) => {
                into.put(e);
                self.pos = next;
                assert(Seq::<Tag>::empty() + found@ =~= found@);
                self.flagged.append(&mut found);
                Ok(true)
            },
        }
    }
}

/// A data set that is not delimited ends at the end of its window.
pub proof fn lemma_dataset_ends_at_end(
    b: Seq<u8>,
    pos: int,
    end: int,
    enc: Encoding,
    d: DictionaryModel,
    acc: Seq<ElementModel>,
)
    requires
        pos <= end,
    ensures
        spec_decode_dataset(b, pos, end, enc, d, acc, false) matches Ok(v) ==> v.1 == end,
    decreases end - pos,
{
    if pos >= end {
    } else {
        match spec_decode_element(b, pos, end, enc, d, acc) {
            Err(f) => {},
            Ok((e, next)) => {
                if next <= pos || next > end {
                } else {
                    lemma_dataset_ends_at_end(b, next, end, enc, d, spec_put(acc, e));
                }
            },
        }
    }
}

} // verus!
