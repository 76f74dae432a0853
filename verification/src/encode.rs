//! The stream encoder: from data elements to bytes.
//!
//! What the encoder writes is stated by a function from the model of the
//! data to a sequence of bytes; the executable encoder is proved to
//! compute it.

use crate::bytes::push_u16;
use crate::bytes::push_u32;
use crate::bytes::u16_bytes;
use crate::bytes::u32_bytes;
use crate::decode::ElementHeader;
use crate::element::items_model;
use crate::element::lemma_sequence_model;
use crate::element::DataElement;
use crate::element::DataSet;
use crate::element::ElementModel;
use crate::element::Value;
use crate::element::ValueModel;
use crate::error::EncodeError;
use crate::tag::spec_item_delimiter_tag;
use crate::tag::spec_item_tag;
use crate::tag::spec_sequence_delimiter_tag;
use crate::tag::Tag;
use crate::text::append;
use crate::text::copy_range;
use crate::text::pad_to_even;
use crate::text::padded;
use crate::text::views;
use crate::transfer_syntax::Encoding;
use crate::value::encode_primitive;
use crate::value::spec_encode_primitive;
use crate::vr::spec_code;
use crate::vr::spec_long_length;
use crate::vr::spec_value_kind;
use crate::vr::ValueKind;
use crate::vr::UNDEFINED_LENGTH;
use crate::vr::VR;
use vstd::prelude::*;

verus! {

/// Which sequences are written with the undefined length, closed by
/// delimiters, and which with a measured length: those whose tags are listed
/// as exceptions are written the other way than the default.
#[derive(Clone, Debug, PartialEq, Eq)]
pub struct LengthPolicy {
    pub undefined_by_default: bool,
    pub exceptions: Vec<Tag>,
}

/// The mathematical model of a length policy.
pub ghost struct LengthPolicyModel {
    pub undefined_by_default: bool,
    pub exceptions: Seq<Tag>,
}

impl View for LengthPolicy {
    type V = LengthPolicyModel;

    open spec fn view(&self) -> LengthPolicyModel {
        LengthPolicyModel {
            undefined_by_default: self.undefined_by_default,
            exceptions: self.exceptions@,
        }
    }
}

/// Whether the sequence with tag `tag` is written with the undefined length.
pub open spec fn uses_undefined_length(policy: LengthPolicyModel, tag: Tag) -> bool {
    policy.undefined_by_default != policy.exceptions.contains(tag)
}

/// The greatest length that a length field of four bytes can say.
pub const MAX_LENGTH: u32 = 0xFFFF_FFFE;

/// The greatest length that the length field of an element can say.
pub open spec fn spec_max_length(vr: VR, enc: Encoding) -> int {
    if enc.explicit_vr && !spec_long_length(vr) {
        0xFFFF
    } else {
        0xFFFF_FFFE
    }
}

/// The four bytes of a tag.
pub open spec fn tag_bytes(tag: Tag, big_endian: bool) -> Seq<u8> {
    u16_bytes(tag.group, big_endian) + u16_bytes(tag.element, big_endian)
}

/// The bytes of the header of an element.
pub open spec fn spec_encode_header(h: ElementHeader, enc: Encoding) -> Seq<u8> {
    if h.tag.group == 0xFFFE || !enc.explicit_vr {
        tag_bytes(h.tag, enc.big_endian) + u32_bytes(h.len, enc.big_endian)
    } else if spec_long_length(h.vr) {
        tag_bytes(h.tag, enc.big_endian) + seq![spec_code(h.vr).0, spec_code(h.vr).1, 0u8, 0u8]
            + u32_bytes(h.len, enc.big_endian)
    } else {
        tag_bytes(h.tag, enc.big_endian) + seq![spec_code(h.vr).0, spec_code(h.vr).1] + u16_bytes(
            h.len as u16,
            enc.big_endian,
        )
    }
}

/// The eight bytes that open an item or a fragment of length `len`.
pub open spec fn item_header(len: u32, big_endian: bool) -> Seq<u8> {
    tag_bytes(spec_item_tag(), big_endian) + u32_bytes(len, big_endian)
}

/// The eight bytes that close an item of undefined length.
pub open spec fn item_delimiter(big_endian: bool) -> Seq<u8> {
    tag_bytes(spec_item_delimiter_tag(), big_endian) + u32_bytes(0, big_endian)
}

/// The eight bytes that close a sequence of undefined length.
pub open spec fn sequence_delimiter(big_endian: bool) -> Seq<u8> {
    tag_bytes(spec_sequence_delimiter_tag(), big_endian) + u32_bytes(0, big_endian)
}

/// The bytes of the fragments from the one numbered `i` on, after `acc`:
/// each padded to an even length behind a header of its own.
pub open spec fn spec_encode_fragments(
    frags: Seq<Seq<u8>>,
    i: int,
    big_endian: bool,
    owner: Tag,
    acc: Seq<u8>,
) -> Result<Seq<u8>, EncodeError>
    decreases frags.len() - i,
{
    if i < 0 || i >= frags.len() {
        Ok(acc)
    } else {
        let v = padded(frags[i], 0);
        if v.len() > 0xFFFF_FFFE {
            Err(EncodeError::LengthOverflow { tag: owner })
        } else {
            spec_encode_fragments(
                frags,
                i + 1,
                big_endian,
                owner,
                acc + item_header(v.len() as u32, big_endian) + v,
            )
        }
    }
}

/// The bytes of an element.
///
/// An element without a value is a header with length zero. A primitive
/// value follows a header with its length. A sequence is written with the
/// undefined length, each item and the sequence closed by a delimiter, or
/// with measured lengths, as the policy says for its tag. Encapsulated pixel
/// data is written with the undefined length: the basic offset table and
/// each fragment as an item, then the sequence delimiter.
///
/// The error is `VrMismatch` where the kind of a value is not the one that
/// the representation prescribes, and `LengthOverflow` where a length does
/// not fit its field; the first such element in the order of writing is
/// reported.
pub open spec fn spec_encode_element(e: ElementModel, enc: Encoding, policy: LengthPolicyModel)
    -> Result<Seq<u8>, EncodeError>
    decreases e, 0int,
{
    match e.value {
        ValueModel::Empty => Ok(
            spec_encode_header(ElementHeader { tag: e.tag, vr: e.vr, len: 0 }, enc),
        ),
        ValueModel::Primitive(p) => {
            if p.kind() != spec_value_kind(e.vr) {
                Err(
                    EncodeError::VrMismatch {
                        tag: e.tag,
                        expected: spec_value_kind(e.vr),
                        actual: p.kind(),
                    },
                )
            } else {
                let v = spec_encode_primitive(p, enc.big_endian, e.vr);
                if v.len() > spec_max_length(e.vr, enc) {
                    Err(EncodeError::LengthOverflow { tag: e.tag })
                } else {
                    Ok(
                        spec_encode_header(
                            ElementHeader { tag: e.tag, vr: e.vr, len: v.len() as u32 },
                            enc,
                        ) + v,
                    )
                }
            }
        },
        ValueModel::Sequence(items) => {
            if e.vr != VR::SQ {
                Err(
                    EncodeError::VrMismatch {
                        tag: e.tag,
                        expected: spec_value_kind(e.vr),
                        actual: ValueKind::Sequence,
                    },
                )
            } else {
                let undefined = uses_undefined_length(policy, e.tag);
                match spec_encode_items(items, 0, enc, policy, undefined, e.tag, Seq::empty()) {
                    Err(x) => Err(x),
                    Ok(body) => if undefined {
                        Ok(
                            spec_encode_header(
                                ElementHeader { tag: e.tag, vr: e.vr, len: UNDEFINED_LENGTH },
                                enc,
                            ) + body + sequence_delimiter(enc.big_endian),
                        )
                    } else if body.len() > 0xFFFF_FFFE {
                        Err(EncodeError::LengthOverflow { tag: e.tag })
                    } else {
                        Ok(
                            spec_encode_header(
                                ElementHeader { tag: e.tag, vr: e.vr, len: body.len() as u32 },
                                enc,
                            ) + body,
                        )
                    },
                }
            }
        },
        ValueModel::PixelSequence { offset_table, fragments } => {
            if e.vr != VR::OB && e.vr != VR::OW {
                Err(
                    EncodeError::VrMismatch {
                        tag: e.tag,
                        expected: spec_value_kind(e.vr),
                        actual: ValueKind::Bytes,
                    },
                )
            } else {
                match spec_encode_fragments(
                    seq![offset_table] + fragments,
                    0,
                    enc.big_endian,
                    e.tag,
                    Seq::empty(),
                ) {
                    Err(x) => Err(x),
                    Ok(body) => Ok(
                        spec_encode_header(
                            ElementHeader { tag: e.tag, vr: e.vr, len: UNDEFINED_LENGTH },
                            enc,
                        ) + body + sequence_delimiter(enc.big_endian),
                    ),
                }
            }
        },
    }
}

/// The bytes of the items from the one numbered `i` on, after `acc`.
pub open spec fn spec_encode_items(
    items: Seq<Seq<ElementModel>>,
    i: int,
    enc: Encoding,
    policy: LengthPolicyModel,
    undefined: bool,
    owner: Tag,
    acc: Seq<u8>,
) -> Result<Seq<u8>, EncodeError>
    decreases items, items.len() - i,
{
    if i < 0 || i >= items.len() {
        Ok(acc)
    } else {
        match spec_encode_dataset(items[i], 0, enc, policy, Seq::empty()) {
            Err(x) => Err(x),
            Ok(body) => if undefined {
                spec_encode_items(
                    items,
                    i + 1,
                    enc,
                    policy,
                    undefined,
                    owner,
                    acc + item_header(UNDEFINED_LENGTH, enc.big_endian) + body + item_delimiter(
                        enc.big_endian,
                    ),
                )
            } else if body.len() > 0xFFFF_FFFE {
                Err(EncodeError::LengthOverflow { tag: owner })
            } else {
                spec_encode_items(
                    items,
                    i + 1,
                    enc,
                    policy,
                    undefined,
                    owner,
                    acc + item_header(body.len() as u32, enc.big_endian) + body,
                )
            },
        }
    }
}

/// The bytes of the elements of a data set from the one numbered `i` on,
/// after `acc`.
pub open spec fn spec_encode_dataset(
    ds: Seq<ElementModel>,
    i: int,
    enc: Encoding,
    policy: LengthPolicyModel,
    acc: Seq<u8>,
) -> Result<Seq<u8>, EncodeError>
    decreases ds, ds.len() - i,
{
    if i < 0 || i >= ds.len() {
        Ok(acc)
    } else {
        match spec_encode_element(ds[i], enc, policy) {
            Err(x) => Err(x),
            Ok(v) => spec_encode_dataset(ds, i + 1, enc, policy, acc + v),
        }
    }
}

/// The bytes of the elements from the one numbered `i` on, after `acc`,
/// without those with tag `skip`.
pub open spec fn spec_encode_without(
    ds: Seq<ElementModel>,
    skip: Tag,
    i: int,
    enc: Encoding,
    policy: LengthPolicyModel,
    acc: Seq<u8>,
) -> Result<Seq<u8>, EncodeError>
    decreases ds.len() - i,
{
    if i < 0 || i >= ds.len() {
        Ok(acc)
    } else if ds[i].tag == skip {
        spec_encode_without(ds, skip, i + 1, enc, policy, acc)
    } else {
        match spec_encode_element(ds[i], enc, policy) {
            Err(x) => Err(x),
            Ok(v) => spec_encode_without(ds, skip, i + 1, enc, policy, acc + v),
        }
    }
}

impl LengthPolicy {
    /// Every sequence is written with a measured length.
    pub fn defined() -> (p: LengthPolicy)
        ensures
            p@ == (LengthPolicyModel { undefined_by_default: false, exceptions: Seq::empty() }),
    {
        LengthPolicy { undefined_by_default: false, exceptions: Vec::new() }
    }

    /// Every sequence is written with the undefined length.
    pub fn undefined() -> (p: LengthPolicy)
        ensures
            p@ == (LengthPolicyModel { undefined_by_default: true, exceptions: Seq::empty() }),
    {
        LengthPolicy { undefined_by_default: true, exceptions: Vec::new() }
    }

    /// Whether the sequence with tag `tag` is written with the undefined
    /// length.
    pub fn uses_undefined(&self, tag: Tag) -> (r: bool)
        ensures
            r == uses_undefined_length(self@, tag),
    {
        let mut i: usize = 0;
        let mut found = false;
        while i < self.exceptions.len() && !found
            invariant
                i <= self.exceptions@.len(),
                !found ==> forall|k: int| 0 <= k < i ==> self.exceptions@[k] != tag,
                found ==> self.exceptions@.contains(tag),
            decreases self.exceptions@.len() - i + (if found { 0int } else { 1int }),
        {
            if self.exceptions[i].same(&tag) {
                found = true;
            } else {
                i += 1;
            }
        }
        self.undefined_by_default != found
    }
}

fn push_tag(out: &mut Vec<u8>, tag: Tag, big_endian: bool)
    ensures
        final(out)@ == old(out)@ + tag_bytes(tag, big_endian),
{
    push_u16(out, tag.group, big_endian);
    push_u16(out, tag.element, big_endian);
}

/// Appends the header of an element.
pub(crate) fn push_header(out: &mut Vec<u8>, h: ElementHeader, enc: Encoding)
    requires
        enc.explicit_vr && !spec_long_length(h.vr) && h.tag.group != 0xFFFE ==> h.len <= 0xFFFF,
    ensures
        final(out)@ == old(out)@ + spec_encode_header(h, enc),
{
    push_tag(out, h.tag, enc.big_endian);
    if h.tag.group == 0xFFFE || !enc.explicit_vr {
        push_u32(out, h.len, enc.big_endian);
    } else {
        let code = h.vr.code();
        out.push(code.0);
        out.push(code.1);
        if h.vr.has_long_length() {
            out.push(0);
            out.push(0);
            push_u32(out, h.len, enc.big_endian);
        } else {
            push_u16(out, h.len as u16, enc.big_endian);
        }
    }
}

fn push_item_header(out: &mut Vec<u8>, len: u32, big_endian: bool)
    ensures
        final(out)@ == old(out)@ + item_header(len, big_endian),
{
    push_tag(out, Tag::item(), big_endian);
    push_u32(out, len, big_endian);
}

fn push_item_delimiter(out: &mut Vec<u8>, big_endian: bool)
    ensures
        final(out)@ == old(out)@ + item_delimiter(big_endian),
{
    push_tag(out, Tag::item_delimiter(), big_endian);
    push_u32(out, 0, big_endian);
}

fn push_sequence_delimiter(out: &mut Vec<u8>, big_endian: bool)
    ensures
        final(out)@ == old(out)@ + sequence_delimiter(big_endian),
{
    push_tag(out, Tag::sequence_delimiter(), big_endian);
    push_u32(out, 0, big_endian);
}

/// Appends one fragment: its header, then its bytes padded to an even
/// length. Returns false, with `out` in an unspecified state, where the
/// fragment is too long for its length field.
fn push_fragment(out: &mut Vec<u8>, frag: &[u8], big_endian: bool) -> (ok: bool)
    ensures
        ok == (padded(frag@, 0).len() <= 0xFFFF_FFFE),
        ok ==> final(out)@ == old(out)@ + item_header(padded(frag@, 0).len() as u32, big_endian)
            + padded(frag@, 0),
{
    let mut v = copy_range(frag, 0, frag.len());
    pad_to_even(&mut v, 0);
    if v.len() > MAX_LENGTH as usize {
        return false;
    }
    push_item_header(out, v.len() as u32, big_endian);
    append(out, v.as_slice());
    true
}

/// Encodes one element.
///
/// On success the bytes are those of the element; each error comes exactly
/// where the element, or the first element below it in the order of
/// writing, is as the error says.
pub fn encode_element(e: &DataElement, enc: Encoding, policy: &LengthPolicy) -> (r: Result<
    Vec<u8>,
    EncodeError,
>)
    ensures
        match r {
            Ok(v) => spec_encode_element(e@, enc, policy@) matches Ok(s) && s == v@,
            Err(x) => spec_encode_element(e@, enc, policy@) matches Err(y) && y == x,
        },
    decreases e,
{
    encode_value(&e.value, e.tag, e.vr, enc, policy)
}

/// Encodes a value under the tag and the representation of its element.
fn encode_value(value: &Value, tag: Tag, vr: VR, enc: Encoding, policy: &LengthPolicy) -> (r:
    Result<Vec<u8>, EncodeError>)
    ensures
        match r {
            Ok(v) => spec_encode_element(
                ElementModel { tag, vr, value: value@ },
                enc,
                policy@,
            ) matches Ok(s) && s == v@,
            Err(x) => spec_encode_element(
                ElementModel { tag, vr, value: value@ },
                enc,
                policy@,
            ) matches Err(y) && y == x,
        },
    decreases value,
{
    let mut out: Vec<u8> = Vec::new();
    match value {
        Value::Empty => {
            push_header(&mut out, ElementHeader { tag, vr, len: 0 }, enc);
            Ok(out)
        },
        Value::Primitive(p) => {
            let kind = p.kind();
            let expected = vr.value_kind();
            if kind != expected {
                return Err(EncodeError::VrMismatch { tag, expected, actual: kind });
            }
            let v = encode_primitive(p, enc.big_endian, vr);
            let long = !enc.explicit_vr || vr.has_long_length();
            if (long && v.len() > MAX_LENGTH as usize) || (!long && v.len() > 0xFFFF) {
                return Err(EncodeError::LengthOverflow { tag });
            }
            push_header(&mut out, ElementHeader { tag, vr, len: v.len() as u32 }, enc);
            append(&mut out, v.as_slice());
            Ok(out)
        },
        Value::Sequence(items) => {
            proof {
                lemma_sequence_model(*items);
            }
            if vr != VR::SQ {
                return Err(
                    EncodeError::VrMismatch {
                        tag,
                        expected: vr.value_kind(),
                        actual: ValueKind::Sequence,
                    },
                );
            }
            let undefined = policy.uses_undefined(tag);
            let mut body: Vec<u8> = Vec::new();
            let mut i: usize = 0;
            while i < items.len()
                invariant
                    i <= items@.len(),
                    value is Sequence,
                    value->Sequence_0 == *items,
                    vr == VR::SQ,
                    value@ == ValueModel::Sequence(items_model(items@)),
                    undefined == uses_undefined_length(policy@, tag),
                    spec_encode_items(
                        items_model(items@),
                        0,
                        enc,
                        policy@,
                        undefined,
                        tag,
                        Seq::empty(),
                    ) == spec_encode_items(
                        items_model(items@),
                        i as int,
                        enc,
                        policy@,
                        undefined,
                        tag,
                        body@,
                    ),
                decreases items@.len() - i,
            {
                let item = match encode_dataset(&items[i], enc, policy) {
                    Ok(b) => b,
                    Err(x) => {
                        return Err(x);
                    },
                };
                if undefined {
                    push_item_header(&mut body, UNDEFINED_LENGTH, enc.big_endian);
                    append(&mut body, item.as_slice());
                    push_item_delimiter(&mut body, enc.big_endian);
                } else {
                    if item.len() > MAX_LENGTH as usize {
                        return Err(EncodeError::LengthOverflow { tag });
                    }
                    push_item_header(&mut body, item.len() as u32, enc.big_endian);
                    append(&mut body, item.as_slice());
                }
                i += 1;
            }
            if undefined {
                push_header(&mut out, ElementHeader { tag, vr, len: UNDEFINED_LENGTH }, enc);
                append(&mut out, body.as_slice());
                push_sequence_delimiter(&mut out, enc.big_endian);
                Ok(out)
            } else {
                if body.len() > MAX_LENGTH as usize {
                    return Err(EncodeError::LengthOverflow { tag });
                }
                push_header(&mut out, ElementHeader { tag, vr, len: body.len() as u32 }, enc);
                append(&mut out, body.as_slice());
                Ok(out)
            }
        },
        Value::PixelSequence(p) => {
            if vr != VR::OB && vr != VR::OW {
                return Err(
                    EncodeError::VrMismatch {
                        tag,
                        expected: vr.value_kind(),
                        actual: ValueKind::Bytes,
                    },
                );
            }
            let ghost all = seq![p.offset_table@] + views(p.fragments@);
            let mut body: Vec<u8> = Vec::new();
            if !push_fragment(&mut body, p.offset_table.as_slice(), enc.big_endian) {
                return Err(EncodeError::LengthOverflow { tag });
            }
            let mut i: usize = 0;
            while i < p.fragments.len()
                invariant
                    i <= p.fragments@.len(),
                    all == seq![p.offset_table@] + views(p.fragments@),
                    vr == VR::OB || vr == VR::OW,
                    value@ == (ValueModel::PixelSequence {
                        offset_table: p.offset_table@,
                        fragments: views(p.fragments@),
                    }),
                    spec_encode_fragments(all, 0, enc.big_endian, tag, Seq::empty())
                        == spec_encode_fragments(all, i + 1, enc.big_endian, tag, body@),
                decreases p.fragments@.len() - i,
            {
                if !push_fragment(&mut body, p.fragments[i].as_slice(), enc.big_endian) {
                    return Err(EncodeError::LengthOverflow { tag });
                }
                i += 1;
            }
            push_header(&mut out, ElementHeader { tag, vr, len: UNDEFINED_LENGTH }, enc);
            append(&mut out, body.as_slice());
            push_sequence_delimiter(&mut out, enc.big_endian);
            Ok(out)
        },
    }
}

/// Encodes a data set: its elements, one after the other.
///
/// On success the bytes are those of the elements in their order; each
/// error comes exactly where the first element that cannot be written is as
/// the error says.
pub fn encode_dataset(ds: &DataSet, enc: Encoding, policy: &LengthPolicy) -> (r: Result<
    Vec<u8>,
    EncodeError,
>)
    ensures
        match r {
            Ok(v) => spec_encode_dataset(ds@, 0, enc, policy@, Seq::empty()) matches Ok(s) && s
                == v@,
            Err(x) => spec_encode_dataset(ds@, 0, enc, policy@, Seq::empty()) matches Err(y) && y
                == x,
        },
    decreases ds,
{
    let mut out: Vec<u8> = Vec::new();
    let mut i: usize = 0;
    while i < ds.elements.len()
        invariant
            i <= ds.elements@.len(),
            ds@.len() == ds.elements@.len(),
            spec_encode_dataset(ds@, 0, enc, policy@, Seq::empty()) == spec_encode_dataset(
                ds@,
                i as int,
                enc,
                policy@,
                out@,
            ),
        decreases ds.elements@.len() - i,
    {
        match encode_element(&ds.elements[i], enc, policy) {
            Ok(v) => {
                append(&mut out, v.as_slice());
            },
            Err(x) => {
                return Err(x);
            },
        }
        i += 1;
    }
    Ok(out)
}

/// Encodes the elements of a data set other than those with tag `skip`.
pub fn encode_without(ds: &DataSet, skip: Tag, enc: Encoding, policy: &LengthPolicy) -> (r: Result<
    Vec<u8>,
    EncodeError,
>)
    ensures
        match r {
            Ok(v) => spec_encode_without(ds@, skip, 0, enc, policy@, Seq::empty()) matches Ok(s)
                && s == v@,
            Err(x) => spec_encode_without(ds@, skip, 0, enc, policy@, Seq::empty()) matches Err(y)
                && y == x,
        },
{
    let mut out: Vec<u8> = Vec::new();
    let mut i: usize = 0;
    while i < ds.elements.len()
        invariant
            i <= ds.elements@.len(),
            ds@.len() == ds.elements@.len(),
            spec_encode_without(ds@, skip, 0, enc, policy@, Seq::empty()) == spec_encode_without(
                ds@,
                skip,
                i as int,
                enc,
                policy@,
                out@,
            ),
        decreases ds.elements@.len() - i,
    {
        if !ds.elements[i].tag.same(&skip) {
            match encode_element(&ds.elements[i], enc, policy) {
                Ok(v) => {
                    append(&mut out, v.as_slice());
                },
                Err(x) => {
                    return Err(x);
                },
            }
        }
        i += 1;
    }
    Ok(out)
}

} // verus!
