//! What holds of the decoder and the encoder together.

use crate::bytes::lemma_u16_round_trip;
use crate::bytes::lemma_u32_round_trip;
use crate::bytes::u16_bytes;
use crate::bytes::u32_at;
use crate::bytes::u32_bytes;
use crate::decode::spec_decode_dataset;
use crate::decode::spec_decode_element;
use crate::decode::spec_decode_fragments;
use crate::decode::spec_decode_header;
use crate::decode::spec_decode_items;
use crate::decode::tag_at;
use crate::decode::ElementHeader;
use crate::dictionary::spec_resolve_vr;
use crate::dictionary::DictionaryModel;
use crate::element::kinds_match;
use crate::element::lemma_position_of;
use crate::element::position_of;
use crate::element::spec_first_string;
use crate::element::lemma_put_at_end;
use crate::element::lemma_put_keeps_well_formed;
use crate::element::well_formed;
use crate::element::spec_put;
use crate::element::strictly_ordered;
use crate::element::ElementModel;
use crate::element::ValueModel;
use crate::encode::item_delimiter;
use crate::encode::item_header;
use crate::encode::sequence_delimiter;
use crate::encode::spec_encode_dataset;
use crate::encode::spec_encode_element;
use crate::encode::spec_encode_fragments;
use crate::encode::spec_encode_header;
use crate::encode::spec_encode_items;
use crate::encode::spec_encode_without;
use crate::encode::tag_bytes;
use crate::encode::uses_undefined_length;
use crate::encode::LengthPolicyModel;
use crate::error::EncodeError;
use crate::meta::group_length_tag;
use crate::meta::implementation_class_tag;
use crate::meta::meta_encoding;
use crate::meta::meta_policy;
use crate::meta::sop_class_tag;
use crate::meta::sop_instance_tag;
use crate::meta::spec_decode_meta;
use crate::meta::spec_encode_meta;
use crate::meta::spec_resolve_meta;
use crate::meta::transfer_syntax_tag;
use crate::meta::MetaModel;
use crate::object::prologue;
use crate::object::spec_decode_file;
use crate::object::spec_encode_file;
use crate::object::spec_has_magic;
use crate::object::FileModel;
use crate::transfer_syntax::find_syntax;
use crate::transfer_syntax::TransferSyntaxModel;
use crate::value::bytes_of_u32s;
use crate::value::PrimitiveModel;
use crate::tag::spec_item_delimiter_tag;
use crate::tag::spec_item_tag;
use crate::tag::spec_pixel_data_tag;
use crate::tag::spec_sequence_delimiter_tag;
use crate::tag::Tag;
use crate::text::padded;
use crate::transfer_syntax::Encoding;
use crate::value::lemma_primitive_round_trip;
use crate::value::spec_encode_primitive;
use crate::vr::lemma_code_round_trip;
use crate::vr::spec_code;
use crate::vr::spec_long_length;
use crate::vr::spec_value_kind;
use crate::vr::UNDEFINED_LENGTH;
use crate::vr::VR;
use vstd::prelude::*;

verus! {

/// Whether an element is read back as it is written: its tag is not one of
/// the group of items and delimiters; where the stream does not carry the
/// representation, the dictionary gives the one that the element has; its
/// value is of the kind of its representation and in the form in which
/// decoding yields it; the same holds of every item below it.
pub open spec fn canonical_element(
    e: ElementModel,
    enc: Encoding,
    d: DictionaryModel,
    preceding: Seq<ElementModel>,
) -> bool
    decreases e, 0int,
{
    &&& e.tag.group != 0xFFFE
    &&& (enc.explicit_vr || spec_resolve_vr(d, preceding, e.tag) == e.vr)
    &&& match e.value {
        ValueModel::Empty => e.vr != VR::SQ,
        ValueModel::Primitive(p) => p.kind() == spec_value_kind(e.vr) && p.is_canonical(),
        ValueModel::Sequence(items) => e.vr == VR::SQ && forall|i: int|
            0 <= i < items.len() ==> canonical_dataset(#[trigger] items[i], enc, d),
        ValueModel::PixelSequence { offset_table, fragments } => {
            &&& e.tag == spec_pixel_data_tag()
            &&& (e.vr == VR::OB || e.vr == VR::OW)
            &&& enc.encapsulated
            &&& offset_table.len() % 2 == 0
            &&& forall|i: int| 0 <= i < fragments.len() ==> (#[trigger] fragments[i]).len() % 2 == 0
        },
    }
}

/// Whether a data set is read back as it is written: its tags stand in
/// strictly increasing order and each element is canonical after those
/// before it.
pub open spec fn canonical_dataset(ds: Seq<ElementModel>, enc: Encoding, d: DictionaryModel) -> bool
    decreases ds, 1int,
{
    &&& strictly_ordered(ds)
    &&& forall|i: int|
        0 <= i < ds.len() ==> canonical_element(#[trigger] ds[i], enc, d, ds.subrange(0, i))
}

/// Whether the bytes `x` stand in `b` at `pos`.
pub open spec fn stands_at(b: Seq<u8>, pos: int, x: Seq<u8>) -> bool {
    0 <= pos && pos + x.len() <= b.len() && b.subrange(pos, pos + x.len()) == x
}

proof fn lemma_split(b: Seq<u8>, pos: int, x: Seq<u8>, y: Seq<u8>)
    requires
        stands_at(b, pos, x + y),
    ensures
        stands_at(b, pos, x),
        stands_at(b, pos + x.len(), y),
{
    let w = x + y;
    assert(b.subrange(pos, pos + x.len()) =~= x);
    assert forall|k: int| 0 <= k < y.len() implies b[pos + x.len() + k] == y[k] by {
        assert(w[x.len() + k] == y[k]);
    }
    assert(b.subrange(pos + x.len(), pos + x.len() + y.len()) =~= y);
}

proof fn lemma_tag_at(b: Seq<u8>, pos: int, tag: Tag, big_endian: bool)
    requires
        stands_at(b, pos, tag_bytes(tag, big_endian)),
    ensures
        tag_at(b, pos, big_endian) == tag,
        tag_bytes(tag, big_endian).len() == 4,
{
    let g = u16_bytes(tag.group, big_endian);
    let e = u16_bytes(tag.element, big_endian);
    assert(g.len() == 2 && e.len() == 2);
    lemma_split(b, pos, g, e);
    lemma_u16_round_trip(b, pos, tag.group, big_endian);
    lemma_u16_round_trip(b, pos + 2, tag.element, big_endian);
}

/// A tag followed by a length of four bytes is read as that tag and that
/// length.
proof fn lemma_marker_at(b: Seq<u8>, pos: int, tag: Tag, len: u32, big_endian: bool)
    requires
        stands_at(b, pos, tag_bytes(tag, big_endian) + u32_bytes(len, big_endian)),
    ensures
        tag_at(b, pos, big_endian) == tag,
        u32_at(b, pos + 4, big_endian) == len,
        (tag_bytes(tag, big_endian) + u32_bytes(len, big_endian)).len() == 8,
{
    let t = tag_bytes(tag, big_endian);
    let l = u32_bytes(len, big_endian);
    lemma_split(b, pos, t, l);
    lemma_tag_at(b, pos, tag, big_endian);
    lemma_u32_round_trip(b, pos + 4, len, big_endian);
}

/// The header that was written is the header that is read.
proof fn lemma_header_round_trip(
    h: ElementHeader,
    enc: Encoding,
    d: DictionaryModel,
    preceding: Seq<ElementModel>,
    b: Seq<u8>,
    pos: int,
    end: int,
)
    requires
        h.tag.group != 0xFFFE,
        enc.explicit_vr || spec_resolve_vr(d, preceding, h.tag) == h.vr,
        enc.explicit_vr && !spec_long_length(h.vr) ==> h.len <= 0xFFFF,
        stands_at(b, pos, spec_encode_header(h, enc)),
        pos + spec_encode_header(h, enc).len() <= end <= b.len(),
    ensures
        spec_decode_header(b, pos, end, enc, d, preceding) matches Ok(v) && v.0 == h && v.1 == pos
            + spec_encode_header(h, enc).len(),
        spec_encode_header(h, enc).len() == 8 || spec_encode_header(h, enc).len() == 12,
        tag_at(b, pos, enc.big_endian) == h.tag,
{
    let be = enc.big_endian;
    let t = tag_bytes(h.tag, be);
    let hb = spec_encode_header(h, enc);
    if !enc.explicit_vr {
        lemma_marker_at(b, pos, h.tag, h.len, be);
    } else if spec_long_length(h.vr) {
        let c = seq![spec_code(h.vr).0, spec_code(h.vr).1, 0u8, 0u8];
        let l = u32_bytes(h.len, be);
        assert(l.len() == 4);
        assert(hb == (t + c) + l);
        lemma_split(b, pos, t + c, l);
        lemma_split(b, pos, t, c);
        lemma_tag_at(b, pos, h.tag, be);
        lemma_code_round_trip(h.vr);
        lemma_u32_round_trip(b, pos + 8, h.len, be);
    } else {
        let c = seq![spec_code(h.vr).0, spec_code(h.vr).1];
        let l = u16_bytes(h.len as u16, be);
        lemma_split(b, pos, t + c, l);
        lemma_split(b, pos, t, c);
        lemma_tag_at(b, pos, h.tag, be);
        assert(b.subrange(pos + 4, pos + 6)[0] == b[pos + 4]);
        lemma_code_round_trip(h.vr);
        lemma_u16_round_trip(b, pos + 6, h.len as u16, be);
    }
}

/// What is written after `acc` is `acc` and then what is written after
/// nothing.
proof fn lemma_encode_dataset_shift(
    ds: Seq<ElementModel>,
    i: int,
    enc: Encoding,
    policy: LengthPolicyModel,
    acc: Seq<u8>,
)
    ensures
        match spec_encode_dataset(ds, i, enc, policy, Seq::empty()) {
            Ok(t) => spec_encode_dataset(ds, i, enc, policy, acc) == Ok::<Seq<u8>, EncodeError>(
                acc + t,
            ),
            Err(x) => spec_encode_dataset(ds, i, enc, policy, acc) == Err::<Seq<u8>, EncodeError>(
                x,
            ),
        },
    decreases ds.len() - i,
{
    if i < 0 || i >= ds.len() {
    } else {
        match spec_encode_element(ds[i], enc, policy) {
            Err(x) => {},
            Ok(v) => {
                lemma_encode_dataset_shift(ds, i + 1, enc, policy, acc + v);
                lemma_encode_dataset_shift(ds, i + 1, enc, policy, Seq::empty() + v);
                match spec_encode_dataset(ds, i + 1, enc, policy, Seq::empty()) {
                    Ok(t) => {
                        assert((acc + v) + t =~= acc + ((Seq::<u8>::empty() + v) + t));
                    },
                    Err(x) => {},
                }
            },
        }
    }
}

/// The bytes that one item adds to a sequence.
pub open spec fn item_bytes(body: Seq<u8>, undefined: bool, big_endian: bool) -> Seq<u8> {
    if undefined {
        item_header(UNDEFINED_LENGTH, big_endian) + body + item_delimiter(big_endian)
    } else {
        item_header(body.len() as u32, big_endian) + body
    }
}

proof fn lemma_encode_items_shift(
    items: Seq<Seq<ElementModel>>,
    i: int,
    enc: Encoding,
    policy: LengthPolicyModel,
    undefined: bool,
    owner: Tag,
    acc: Seq<u8>,
)
    ensures
        match spec_encode_items(items, i, enc, policy, undefined, owner, Seq::empty()) {
            Ok(t) => spec_encode_items(items, i, enc, policy, undefined, owner, acc) == Ok::<
                Seq<u8>,
                EncodeError,
            >(acc + t),
            Err(x) => spec_encode_items(items, i, enc, policy, undefined, owner, acc) == Err::<
                Seq<u8>,
                EncodeError,
            >(x),
        },
    decreases items.len() - i,
{
    if i < 0 || i >= items.len() {
    } else {
        match spec_encode_dataset(items[i], 0, enc, policy, Seq::empty()) {
            Err(x) => {},
            Ok(body) => {
                if !undefined && body.len() > 0xFFFF_FFFE {
                } else {
                    let v = item_bytes(body, undefined, enc.big_endian);
                    let e = Seq::<u8>::empty();
                    if undefined {
                        assert(acc + item_header(UNDEFINED_LENGTH, enc.big_endian) + body
                            + item_delimiter(enc.big_endian) =~= acc + v);
                    } else {
                        assert(acc + item_header(body.len() as u32, enc.big_endian) + body =~= acc
                            + v);
                    }
                    lemma_encode_items_shift(items, i + 1, enc, policy, undefined, owner, acc + v);
                    lemma_encode_items_shift(items, i + 1, enc, policy, undefined, owner, e + v);
                    match spec_encode_items(items, i + 1, enc, policy, undefined, owner, e) {
                        Ok(t) => {
                            assert((acc + v) + t =~= acc + ((e + v) + t));
                        },
                        Err(x) => {},
                    }
                }
            },
        }
    }
}

proof fn lemma_encode_fragments_shift(
    frags: Seq<Seq<u8>>,
    i: int,
    big_endian: bool,
    owner: Tag,
    acc: Seq<u8>,
)
    ensures
        match spec_encode_fragments(frags, i, big_endian, owner, Seq::empty()) {
            Ok(t) => spec_encode_fragments(frags, i, big_endian, owner, acc) == Ok::<
                Seq<u8>,
                EncodeError,
            >(acc + t),
            Err(x) => spec_encode_fragments(frags, i, big_endian, owner, acc) == Err::<
                Seq<u8>,
                EncodeError,
            >(x),
        },
    decreases frags.len() - i,
{
    if i < 0 || i >= frags.len() {
    } else {
        let p = padded(frags[i], 0);
        if p.len() > 0xFFFF_FFFE {
        } else {
            let v = item_header(p.len() as u32, big_endian) + p;
            let e = Seq::<u8>::empty();
            assert(acc + item_header(p.len() as u32, big_endian) + p =~= acc + v);
            lemma_encode_fragments_shift(frags, i + 1, big_endian, owner, acc + v);
            lemma_encode_fragments_shift(frags, i + 1, big_endian, owner, e + v);
            match spec_encode_fragments(frags, i + 1, big_endian, owner, e) {
                Ok(t) => {
                    assert((acc + v) + t =~= acc + ((e + v) + t));
                },
                Err(x) => {},
            }
        }
    }
}

/// The fragments that were written, each of even length, are the fragments
/// that are read.
proof fn lemma_fragments_round_trip(
    frags: Seq<Seq<u8>>,
    i: int,
    big_endian: bool,
    owner: Tag,
    b: Seq<u8>,
    pos: int,
    end: int,
)
    requires
        0 <= i <= frags.len(),
        forall|k: int| 0 <= k < frags.len() ==> (#[trigger] frags[k]).len() % 2 == 0,
        spec_encode_fragments(frags, i, big_endian, owner, Seq::empty()) is Ok,
        stands_at(
            b,
            pos,
            spec_encode_fragments(frags, i, big_endian, owner, Seq::empty())->Ok_0
                + sequence_delimiter(big_endian),
        ),
        end <= b.len(),
        pos + spec_encode_fragments(frags, i, big_endian, owner, Seq::empty())->Ok_0.len() + 8
            <= end,
    ensures
        spec_decode_fragments(b, pos, end, big_endian, frags.subrange(0, i)) matches Ok(v) && v.0
            == frags && v.1 == pos + spec_encode_fragments(
            frags,
            i,
            big_endian,
            owner,
            Seq::empty(),
        )->Ok_0.len() + 8,
    decreases frags.len() - i,
{
    let tail = spec_encode_fragments(frags, i, big_endian, owner, Seq::empty())->Ok_0;
    let delim = sequence_delimiter(big_endian);
    if i >= frags.len() {
        lemma_marker_at(b, pos, spec_sequence_delimiter_tag(), 0, big_endian);
        assert(frags.subrange(0, i) =~= frags);
    } else {
        let p = padded(frags[i], 0);
        let hd = item_header(p.len() as u32, big_endian);
        let v = hd + p;
        let e = Seq::<u8>::empty();
        lemma_encode_fragments_shift(frags, i + 1, big_endian, owner, v);
        let rest = spec_encode_fragments(frags, i + 1, big_endian, owner, e)->Ok_0;
        assert(tail + delim =~= hd + (p + (rest + delim)));
        lemma_split(b, pos, hd, p + (rest + delim));
        lemma_marker_at(b, pos, spec_item_tag(), p.len() as u32, big_endian);
        lemma_split(b, pos + 8, p, rest + delim);
        assert(frags.subrange(0, i).push(frags[i]) =~= frags.subrange(0, i + 1));
        lemma_fragments_round_trip(frags, i + 1, big_endian, owner, b, pos + 8 + p.len(), end);
    }
}

/// An element without items or fragments is read as it was written.
proof fn lemma_plain_element_round_trip(
    e: ElementModel,
    enc: Encoding,
    d: DictionaryModel,
    policy: LengthPolicyModel,
    preceding: Seq<ElementModel>,
    b: Seq<u8>,
    pos: int,
    end: int,
)
    requires
        e.value is Empty || e.value is Primitive,
        canonical_element(e, enc, d, preceding),
        spec_encode_element(e, enc, policy) is Ok,
        stands_at(b, pos, spec_encode_element(e, enc, policy)->Ok_0),
        pos + spec_encode_element(e, enc, policy)->Ok_0.len() <= end <= b.len(),
    ensures
        spec_decode_element(b, pos, end, enc, d, preceding) matches Ok(v) && v.0 == e && v.1 == pos
            + spec_encode_element(e, enc, policy)->Ok_0.len(),
        spec_encode_element(e, enc, policy)->Ok_0.len() >= 8,
        tag_at(b, pos, enc.big_endian) == e.tag,
{
    let be = enc.big_endian;
    match e.value {
        ValueModel::Empty => {
            let h = ElementHeader { tag: e.tag, vr: e.vr, len: 0 };
            lemma_header_round_trip(h, enc, d, preceding, b, pos, end);
        },
        ValueModel::Primitive(p) => {
            let v = spec_encode_primitive(p, be, e.vr);
            let h = ElementHeader { tag: e.tag, vr: e.vr, len: v.len() as u32 };
            let hb = spec_encode_header(h, enc);
            lemma_split(b, pos, hb, v);
            lemma_header_round_trip(h, enc, d, preceding, b, pos, end);
            lemma_primitive_round_trip(p, be, e.vr);
        },
        _ => {},
    }
}

proof fn lemma_delimiter_lengths(big_endian: bool)
    ensures
        sequence_delimiter(big_endian).len() == 8,
        item_delimiter(big_endian).len() == 8,
{
    assert(u16_bytes(0xE0DD, big_endian).len() == 2);
}

/// Encapsulated pixel data is read as it was written.
proof fn lemma_pixel_element_round_trip(
    e: ElementModel,
    enc: Encoding,
    d: DictionaryModel,
    policy: LengthPolicyModel,
    preceding: Seq<ElementModel>,
    b: Seq<u8>,
    pos: int,
    end: int,
)
    requires
        e.value is PixelSequence,
        canonical_element(e, enc, d, preceding),
        spec_encode_element(e, enc, policy) is Ok,
        stands_at(b, pos, spec_encode_element(e, enc, policy)->Ok_0),
        pos + spec_encode_element(e, enc, policy)->Ok_0.len() <= end <= b.len(),
    ensures
        spec_decode_element(b, pos, end, enc, d, preceding) matches Ok(v) && v.0 == e && v.1 == pos
            + spec_encode_element(e, enc, policy)->Ok_0.len(),
        spec_encode_element(e, enc, policy)->Ok_0.len() >= 8,
        tag_at(b, pos, enc.big_endian) == e.tag,
{
    let be = enc.big_endian;
    let bytes = spec_encode_element(e, enc, policy)->Ok_0;
    match e.value {
        ValueModel::PixelSequence { offset_table, fragments } => {
            let all = seq![offset_table] + fragments;
            let body = spec_encode_fragments(all, 0, be, e.tag, Seq::empty())->Ok_0;
            let h = ElementHeader { tag: e.tag, vr: e.vr, len: UNDEFINED_LENGTH };
            let hb = spec_encode_header(h, enc);
            let delim = sequence_delimiter(be);
            assert(bytes =~= hb + (body + delim));
            lemma_split(b, pos, hb, body + delim);
            lemma_header_round_trip(h, enc, d, preceding, b, pos, end);
            let vpos = pos + hb.len();
            lemma_delimiter_lengths(be);
            assert forall|k: int| 0 <= k < all.len() implies (#[trigger] all[k]).len() % 2 == 0 by {}
            lemma_fragments_round_trip(all, 0, be, e.tag, b, vpos, end);
            assert(all.subrange(0, 0) =~= Seq::<Seq<u8>>::empty());
            assert(all.drop_first() =~= fragments);
        },
        _ => {},
    }
}

/// The element that was written is the element that is read.
pub proof fn lemma_element_round_trip(
    e: ElementModel,
    enc: Encoding,
    d: DictionaryModel,
    policy: LengthPolicyModel,
    preceding: Seq<ElementModel>,
    b: Seq<u8>,
    pos: int,
    end: int,
)
    requires
        canonical_element(e, enc, d, preceding),
        spec_encode_element(e, enc, policy) is Ok,
        stands_at(b, pos, spec_encode_element(e, enc, policy)->Ok_0),
        pos + spec_encode_element(e, enc, policy)->Ok_0.len() <= end <= b.len(),
    ensures
        spec_decode_element(b, pos, end, enc, d, preceding) matches Ok(v) && v.0 == e && v.1 == pos
            + spec_encode_element(e, enc, policy)->Ok_0.len(),
        spec_encode_element(e, enc, policy)->Ok_0.len() >= 8,
        tag_at(b, pos, enc.big_endian) == e.tag,
    decreases e, 0int,
{
    let be = enc.big_endian;
    let bytes = spec_encode_element(e, enc, policy)->Ok_0;
    match e.value {
        ValueModel::Sequence(items) => {
            let undefined = uses_undefined_length(policy, e.tag);
            let body = spec_encode_items(items, 0, enc, policy, undefined, e.tag, Seq::empty())->Ok_0;
            lemma_delimiter_lengths(be);
            assert(items.subrange(0, 0) =~= Seq::<Seq<ElementModel>>::empty());
            if undefined {
                let h = ElementHeader { tag: e.tag, vr: e.vr, len: UNDEFINED_LENGTH };
                let hb = spec_encode_header(h, enc);
                let delim = sequence_delimiter(be);
                assert(bytes =~= hb + (body + delim));
                lemma_split(b, pos, hb, body + delim);
                lemma_header_round_trip(h, enc, d, preceding, b, pos, end);
                let vpos = pos + hb.len();
                lemma_items_round_trip(items, 0, enc, d, policy, undefined, e.tag, b, vpos, end);
            } else {
                let h = ElementHeader { tag: e.tag, vr: e.vr, len: body.len() as u32 };
                let hb = spec_encode_header(h, enc);
                lemma_split(b, pos, hb, body);
                lemma_header_round_trip(h, enc, d, preceding, b, pos, end);
                let vpos = pos + hb.len();
                lemma_items_round_trip(
                    items,
                    0,
                    enc,
                    d,
                    policy,
                    undefined,
                    e.tag,
                    b,
                    vpos,
                    vpos + body.len(),
                );
            }
        },
        ValueModel::PixelSequence { .. } => {
            lemma_pixel_element_round_trip(e, enc, d, policy, preceding, b, pos, end);
        },
        _ => {
            lemma_plain_element_round_trip(e, enc, d, policy, preceding, b, pos, end);
        },
    }
}

/// The items that were written are the items that are read.
pub proof fn lemma_items_round_trip(
    items: Seq<Seq<ElementModel>>,
    i: int,
    enc: Encoding,
    d: DictionaryModel,
    policy: LengthPolicyModel,
    undefined: bool,
    owner: Tag,
    b: Seq<u8>,
    pos: int,
    end: int,
)
    requires
        0 <= i <= items.len(),
        forall|k: int| 0 <= k < items.len() ==> canonical_dataset(#[trigger] items[k], enc, d),
        spec_encode_items(items, i, enc, policy, undefined, owner, Seq::empty()) is Ok,
        end <= b.len(),
        undefined ==> stands_at(
            b,
            pos,
            spec_encode_items(items, i, enc, policy, undefined, owner, Seq::empty())->Ok_0
                + sequence_delimiter(enc.big_endian),
        ) && pos + spec_encode_items(
            items,
            i,
            enc,
            policy,
            undefined,
            owner,
            Seq::empty(),
        )->Ok_0.len() + 8 <= end,
        !undefined ==> stands_at(
            b,
            pos,
            spec_encode_items(items, i, enc, policy, undefined, owner, Seq::empty())->Ok_0,
        ) && pos + spec_encode_items(
            items,
            i,
            enc,
            policy,
            undefined,
            owner,
            Seq::empty(),
        )->Ok_0.len() == end,
    ensures
        spec_decode_items(b, pos, end, enc, d, items.subrange(0, i), undefined) matches Ok(v)
            && v.0 == items && v.1 == pos + spec_encode_items(
            items,
            i,
            enc,
            policy,
            undefined,
            owner,
            Seq::empty(),
        )->Ok_0.len() + if undefined {
            8int
        } else {
            0int
        },
    decreases items, items.len() - i,
{
    let be = enc.big_endian;
    let e = Seq::<u8>::empty();
    let tail = spec_encode_items(items, i, enc, policy, undefined, owner, e)->Ok_0;
    let delim = sequence_delimiter(be);
    if i >= items.len() {
        if undefined {
            lemma_marker_at(b, pos, spec_sequence_delimiter_tag(), 0, be);
        }
    } else {
        let body = spec_encode_dataset(items[i], 0, enc, policy, e)->Ok_0;
        let v = item_bytes(body, undefined, be);
        lemma_encode_items_shift(items, i + 1, enc, policy, undefined, owner, v);
        let rest = spec_encode_items(items, i + 1, enc, policy, undefined, owner, e)->Ok_0;
        assert(tail == v + rest);
        assert(items.subrange(0, i).push(items[i]) =~= items.subrange(0, i + 1));
        assert(items[i].subrange(0, 0) =~= Seq::<ElementModel>::empty());
        if undefined {
            let hd = item_header(UNDEFINED_LENGTH, be);
            let idl = item_delimiter(be);
            assert(tail + delim =~= hd + ((body + idl) + (rest + delim)));
            lemma_split(b, pos, hd, (body + idl) + (rest + delim));
            lemma_marker_at(b, pos, spec_item_tag(), UNDEFINED_LENGTH, be);
            lemma_split(b, pos + 8, body + idl, rest + delim);
            lemma_dataset_round_trip(items[i], 0, enc, d, policy, b, pos + 8, end, true);
            let next = pos + 8 + body.len() + 8;
            lemma_items_round_trip(items, i + 1, enc, d, policy, undefined, owner, b, next, end);
        } else {
            let hd = item_header(body.len() as u32, be);
            assert(tail =~= hd + (body + rest));
            lemma_split(b, pos, hd, body + rest);
            lemma_marker_at(b, pos, spec_item_tag(), body.len() as u32, be);
            lemma_split(b, pos + 8, body, rest);
            lemma_dataset_round_trip(
                items[i],
                0,
                enc,
                d,
                policy,
                b,
                pos + 8,
                pos + 8 + body.len(),
                false,
            );
            let next = pos + 8 + body.len();
            lemma_items_round_trip(items, i + 1, enc, d, policy, undefined, owner, b, next, end);
        }
    }
}

/// The elements that were written, from the one numbered `i` on, are read
/// back into the data set that holds those before them.
pub proof fn lemma_dataset_round_trip(
    ds: Seq<ElementModel>,
    i: int,
    enc: Encoding,
    d: DictionaryModel,
    policy: LengthPolicyModel,
    b: Seq<u8>,
    pos: int,
    end: int,
    delimited: bool,
)
    requires
        0 <= i <= ds.len(),
        canonical_dataset(ds, enc, d),
        spec_encode_dataset(ds, i, enc, policy, Seq::empty()) is Ok,
        end <= b.len(),
        delimited ==> stands_at(
            b,
            pos,
            spec_encode_dataset(ds, i, enc, policy, Seq::empty())->Ok_0 + item_delimiter(
                enc.big_endian,
            ),
        ) && pos + spec_encode_dataset(ds, i, enc, policy, Seq::empty())->Ok_0.len() + 8 <= end,
        !delimited ==> stands_at(b, pos, spec_encode_dataset(ds, i, enc, policy, Seq::empty())->Ok_0)
            && pos + spec_encode_dataset(ds, i, enc, policy, Seq::empty())->Ok_0.len() == end,
    ensures
        spec_decode_dataset(b, pos, end, enc, d, ds.subrange(0, i), delimited) matches Ok(v) && v.0
            == ds && v.1 == pos + spec_encode_dataset(ds, i, enc, policy, Seq::empty())->Ok_0.len()
            + if delimited {
            8int
        } else {
            0int
        },
    decreases ds, ds.len() - i,
{
    let be = enc.big_endian;
    let e = Seq::<u8>::empty();
    let tail = spec_encode_dataset(ds, i, enc, policy, e)->Ok_0;
    let idl = item_delimiter(be);
    if i >= ds.len() {
        if delimited {
            lemma_marker_at(b, pos, spec_item_delimiter_tag(), 0, be);
        }
    } else {
        let v = spec_encode_element(ds[i], enc, policy)->Ok_0;
        lemma_encode_dataset_shift(ds, i + 1, enc, policy, v);
        let rest = spec_encode_dataset(ds, i + 1, enc, policy, e)->Ok_0;
        let acc = ds.subrange(0, i);
        assert(canonical_element(ds[i], enc, d, acc));
        if delimited {
            assert(tail + idl =~= v + (rest + idl));
            lemma_split(b, pos, v, rest + idl);
        } else {
            lemma_split(b, pos, v, rest);
        }
        lemma_element_round_trip(ds[i], enc, d, policy, acc, b, pos, end);
        assert forall|k: int| 0 <= k < acc.len() implies acc[k].tag.key() < ds[i].tag.key() by {}
        lemma_put_at_end(acc, ds[i]);
        assert(acc.push(ds[i]) =~= ds.subrange(0, i + 1));
        lemma_dataset_round_trip(ds, i + 1, enc, d, policy, b, pos + v.len(), end, delimited);
    }
}

/// Round trip: a canonical data set that can be written is read back from
/// its bytes as it was, under the same encoding and dictionary, whatever
/// the length policy; and the whole stream is consumed.
pub proof fn lemma_round_trip(
    ds: Seq<ElementModel>,
    enc: Encoding,
    d: DictionaryModel,
    policy: LengthPolicyModel,
)
    requires
        canonical_dataset(ds, enc, d),
        spec_encode_dataset(ds, 0, enc, policy, Seq::empty()) is Ok,
    ensures
        spec_decode_dataset(
            spec_encode_dataset(ds, 0, enc, policy, Seq::empty())->Ok_0,
            0,
            spec_encode_dataset(ds, 0, enc, policy, Seq::empty())->Ok_0.len() as int,
            enc,
            d,
            Seq::empty(),
            false,
        ) matches Ok(v) && v.0 == ds && v.1 == spec_encode_dataset(
            ds,
            0,
            enc,
            policy,
            Seq::empty(),
        )->Ok_0.len(),
{
    let b = spec_encode_dataset(ds, 0, enc, policy, Seq::empty())->Ok_0;
    assert(b.subrange(0, b.len() as int) =~= b);
    assert(ds.subrange(0, 0) =~= Seq::<ElementModel>::empty());
    lemma_dataset_round_trip(ds, 0, enc, d, policy, b, 0, b.len() as int, false);
}

/// Fragments that are read end behind a sequence delimiter.
proof fn lemma_fragments_extent(
    b: Seq<u8>,
    pos: int,
    end: int,
    big_endian: bool,
    acc: Seq<Seq<u8>>,
)
    ensures
        spec_decode_fragments(b, pos, end, big_endian, acc) matches Ok(v) ==> pos + 8 <= v.1 <= end
            && tag_at(b, v.1 - 8, big_endian) == spec_sequence_delimiter_tag(),
    decreases end - pos,
{
    if pos >= end || pos + 8 > end {
    } else {
        let tag = tag_at(b, pos, big_endian);
        let len = u32_at(b, pos + 4, big_endian);
        if tag == spec_sequence_delimiter_tag() || tag != spec_item_tag() || len
            == UNDEFINED_LENGTH || pos + 8 + len > end {
        } else {
            lemma_fragments_extent(
                b,
                pos + 8 + len,
                end,
                big_endian,
                acc.push(b.subrange(pos + 8, pos + 8 + len)),
            );
        }
    }
}

/// Items that are read end within their window; those of a sequence of
/// undefined length end behind its sequence delimiter.
proof fn lemma_items_extent(
    b: Seq<u8>,
    pos: int,
    end: int,
    enc: Encoding,
    d: DictionaryModel,
    acc: Seq<Seq<ElementModel>>,
    delimited: bool,
)
    ensures
        spec_decode_items(b, pos, end, enc, d, acc, delimited) matches Ok(v) ==> pos <= v.1 && (
        pos <= end ==> v.1 <= end) && (delimited ==> pos + 8 <= v.1 && tag_at(
            b,
            v.1 - 8,
            enc.big_endian,
        ) == spec_sequence_delimiter_tag()),
    decreases end - pos,
{
    if pos >= end || pos + 8 > end {
    } else {
        let tag = tag_at(b, pos, enc.big_endian);
        let len = u32_at(b, pos + 4, enc.big_endian);
        if tag == spec_sequence_delimiter_tag() || tag != spec_item_tag() || (len
            != UNDEFINED_LENGTH && pos + 8 + len > end) {
        } else {
            let inner = if len == UNDEFINED_LENGTH {
                spec_decode_dataset(b, pos + 8, end, enc, d, Seq::empty(), true)
            } else {
                spec_decode_dataset(b, pos + 8, pos + 8 + len, enc, d, Seq::empty(), false)
            };
            match inner {
                Err(f) => {},
                Ok((item, next)) => {
                    if next <= pos || next > end {
                    } else {
                        lemma_items_extent(b, next, end, enc, d, acc.push(item), delimited);
                    }
                },
            }
        }
    }
}

/// Length invariant: an element that is read ends beyond the position at
/// which it starts and within its window. Where its header declares a
/// length, the element ends that many bytes behind the header; where the
/// length is undefined, it ends behind the sequence delimiter that closes
/// it.
pub proof fn lemma_element_extent(
    b: Seq<u8>,
    pos: int,
    end: int,
    enc: Encoding,
    d: DictionaryModel,
    preceding: Seq<ElementModel>,
)
    ensures
        spec_decode_element(b, pos, end, enc, d, preceding) matches Ok(v) ==> spec_decode_header(
            b,
            pos,
            end,
            enc,
            d,
            preceding,
        ) matches Ok(h) && pos < h.1 <= v.1 <= end && (h.0.len != UNDEFINED_LENGTH ==> v.1 == h.1
            + h.0.len) && (h.0.len == UNDEFINED_LENGTH ==> h.1 + 8 <= v.1 && tag_at(
            b,
            v.1 - 8,
            enc.big_endian,
        ) == spec_sequence_delimiter_tag()),
{
    match spec_decode_header(b, pos, end, enc, d, preceding) {
        Err(f) => {},
        Ok((h, vpos)) => {
            if h.len == UNDEFINED_LENGTH {
                lemma_items_extent(b, vpos, end, enc, d, Seq::empty(), true);
                lemma_fragments_extent(b, vpos, end, enc.big_endian, Seq::empty());
            }
        },
    }
}

/// Each step of reading a data set moves the position forward: the data
/// set ends at or beyond the position at which it starts, and within its
/// window.
pub proof fn lemma_dataset_extent(
    b: Seq<u8>,
    pos: int,
    end: int,
    enc: Encoding,
    d: DictionaryModel,
    acc: Seq<ElementModel>,
    delimited: bool,
)
    ensures
        spec_decode_dataset(b, pos, end, enc, d, acc, delimited) matches Ok(v) ==> pos <= v.1 && (
        pos <= end ==> v.1 <= end) && (delimited ==> pos + 8 <= v.1 && tag_at(
            b,
            v.1 - 8,
            enc.big_endian,
        ) == spec_item_delimiter_tag()),
    decreases end - pos,
{
    if pos >= end {
    } else if delimited && pos + 8 <= end && tag_at(b, pos, enc.big_endian)
        == spec_item_delimiter_tag() {
    } else {
        match spec_decode_element(b, pos, end, enc, d, acc) {
            Err(f) => {},
            Ok((e, next)) => {
                if next <= pos || next > end {
                } else {
                    lemma_dataset_extent(b, next, end, enc, d, spec_put(acc, e), delimited);
                }
            },
        }
    }
}

/// An element that is read holds items exactly where it is a sequence
/// element: a sequence element never comes back empty or with a primitive
/// value, and no other element holds items.
pub proof fn lemma_decoded_sequence(
    b: Seq<u8>,
    pos: int,
    end: int,
    enc: Encoding,
    d: DictionaryModel,
    preceding: Seq<ElementModel>,
)
    ensures
        spec_decode_element(b, pos, end, enc, d, preceding) matches Ok(v) ==> ((v.0.vr == VR::SQ)
            == (v.0.value is Sequence)),
{
    match spec_decode_header(b, pos, end, enc, d, preceding) {
        Err(f) => {},
        Ok((h, vpos)) => {},
    }
}

/// Kind invariant: the value of an element that is read is of the kind
/// that the catalog prescribes for its representation, and the items below
/// it are well formed.
pub proof fn lemma_decoded_element_kind(
    b: Seq<u8>,
    pos: int,
    end: int,
    enc: Encoding,
    d: DictionaryModel,
    preceding: Seq<ElementModel>,
)
    ensures
        spec_decode_element(b, pos, end, enc, d, preceding) matches Ok(v) ==> kinds_match(v.0),
    decreases end - pos, 1int,
{
    match spec_decode_header(b, pos, end, enc, d, preceding) {
        Err(f) => {},
        Ok((h, vpos)) => {
            if h.tag.group == 0xFFFE {
            } else if h.len == UNDEFINED_LENGTH {
                if h.vr == VR::SQ {
                    lemma_decoded_items_well_formed(b, vpos, end, enc, d, Seq::empty(), true);
                }
            } else if vpos + h.len > end {
            } else if h.vr == VR::SQ {
                lemma_decoded_items_well_formed(
                    b,
                    vpos,
                    vpos + h.len,
                    enc,
                    d,
                    Seq::empty(),
                    false,
                );
            } else {
            }
        },
    }
}

/// The items that are read are well formed.
pub proof fn lemma_decoded_items_well_formed(
    b: Seq<u8>,
    pos: int,
    end: int,
    enc: Encoding,
    d: DictionaryModel,
    acc: Seq<Seq<ElementModel>>,
    delimited: bool,
)
    requires
        forall|i: int| 0 <= i < acc.len() ==> well_formed(#[trigger] acc[i]),
    ensures
        spec_decode_items(b, pos, end, enc, d, acc, delimited) matches Ok(v) ==> forall|i: int|
            0 <= i < v.0.len() ==> well_formed(#[trigger] v.0[i]),
    decreases end - pos, 3int,
{
    if pos >= end || pos + 8 > end {
    } else {
        let tag = tag_at(b, pos, enc.big_endian);
        let len = u32_at(b, pos + 4, enc.big_endian);
        if tag == spec_sequence_delimiter_tag() || tag != spec_item_tag() || (len
            != UNDEFINED_LENGTH && pos + 8 + len > end) {
        } else {
            let inner_end = if len == UNDEFINED_LENGTH {
                end
            } else {
                pos + 8 + len
            };
            let inner = spec_decode_dataset(
                b,
                pos + 8,
                inner_end,
                enc,
                d,
                Seq::empty(),
                len == UNDEFINED_LENGTH,
            );
            lemma_decoded_dataset_well_formed(
                b,
                pos + 8,
                inner_end,
                enc,
                d,
                Seq::empty(),
                len == UNDEFINED_LENGTH,
            );
            match inner {
                Err(f) => {},
                Ok((item, next)) => {
                    if next <= pos || next > end {
                    } else {
                        let grown = acc.push(item);
                        lemma_decoded_items_well_formed(b, next, end, enc, d, grown, delimited);
                    }
                },
            }
        }
    }
}

/// Order and kind invariant: a data set that is read into a well-formed
/// data set is well formed: its tags stand in strictly increasing order,
/// and the value of every element is of the kind that its representation
/// prescribes, in the data set and in every item below it.
pub proof fn lemma_decoded_dataset_well_formed(
    b: Seq<u8>,
    pos: int,
    end: int,
    enc: Encoding,
    d: DictionaryModel,
    acc: Seq<ElementModel>,
    delimited: bool,
)
    requires
        well_formed(acc),
    ensures
        spec_decode_dataset(b, pos, end, enc, d, acc, delimited) matches Ok(v) ==> well_formed(v.0),
    decreases end - pos, 2int,
{
    if pos >= end {
    } else if delimited && pos + 8 <= end && tag_at(b, pos, enc.big_endian)
        == spec_item_delimiter_tag() {
    } else {
        lemma_decoded_element_kind(b, pos, end, enc, d, acc);
        match spec_decode_element(b, pos, end, enc, d, acc) {
            Err(f) => {},
            Ok((e, next)) => {
                if next <= pos || next > end {
                } else {
                    lemma_put_keeps_well_formed(acc, e);
                    lemma_decoded_dataset_well_formed(
                        b,
                        next,
                        end,
                        enc,
                        d,
                        spec_put(acc, e),
                        delimited,
                    );
                }
            },
        }
    }
}

/// The group length element of a file meta group whose other elements take
/// `n` bytes.
pub open spec fn group_length_element(n: u32) -> ElementModel {
    ElementModel {
        tag: group_length_tag(),
        vr: VR::UL,
        value: ValueModel::Primitive(PrimitiveModel::U32(seq![n])),
    }
}

/// The group number that a reader of little-endian numbers sees where a
/// tag stands in the byte order given.
pub open spec fn group_as_little_endian(tag: Tag, big_endian: bool) -> int {
    if big_endian {
        256 * (tag.group % 256) + tag.group / 256
    } else {
        tag.group as int
    }
}

/// Whether an object is read back from its file as it is written.
///
/// The elements of its table are canonical, belong to group 0002 and hold
/// no group length; the table names in its elements the identifiers that it
/// holds in its fields; the registry knows its transfer syntax, which is
/// not deflated; its data set is canonical under that transfer syntax; and
/// the first tag of the data set is not taken for one of the table.
pub open spec fn canonical_file(
    obj: FileModel,
    registry: Seq<TransferSyntaxModel>,
    d: DictionaryModel,
) -> bool {
    let m = obj.meta;
    &&& canonical_dataset(m.elements, meta_encoding(), d)
    &&& forall|i: int|
        0 <= i < m.elements.len() ==> (#[trigger] m.elements[i]).tag.group == 0x0002
            && m.elements[i].tag.element != 0
    &&& spec_first_string(m.elements, transfer_syntax_tag()) == Some(m.transfer_syntax.uid)
    &&& spec_first_string(m.elements, sop_class_tag()) == Some(m.media_storage_sop_class_uid)
    &&& spec_first_string(m.elements, sop_instance_tag()) == Some(
        m.media_storage_sop_instance_uid,
    )
    &&& m.implementation_class_uid == match spec_first_string(
        m.elements,
        implementation_class_tag(),
    ) {
        Some(x) => x,
        None => Seq::empty(),
    }
    &&& find_syntax(registry, m.transfer_syntax.uid, 0) matches Some(k) && registry[k]
        == m.transfer_syntax
    &&& !m.transfer_syntax.deflated
    &&& canonical_dataset(obj.dataset, m.transfer_syntax.encoding(), d)
    &&& obj.dataset.len() > 0 ==> group_as_little_endian(
        obj.dataset[0].tag,
        m.transfer_syntax.big_endian,
    ) != 2
}

/// Where no element has the tag that is skipped, nothing is skipped.
proof fn lemma_nothing_skipped(
    ds: Seq<ElementModel>,
    skip: Tag,
    i: int,
    enc: Encoding,
    policy: LengthPolicyModel,
    acc: Seq<u8>,
)
    requires
        forall|k: int| 0 <= k < ds.len() ==> (#[trigger] ds[k]).tag != skip,
    ensures
        spec_encode_without(ds, skip, i, enc, policy, acc) == spec_encode_dataset(
            ds,
            i,
            enc,
            policy,
            acc,
        ),
    decreases ds.len() - i,
{
    if i < 0 || i >= ds.len() {
    } else {
        match spec_encode_element(ds[i], enc, policy) {
            Err(x) => {},
            Ok(v) => {
                lemma_nothing_skipped(ds, skip, i + 1, enc, policy, acc + v);
            },
        }
    }
}

/// The table with its group length before it is canonical, and its bytes
/// are the bytes of the group.
proof fn lemma_meta_as_dataset(elements: Seq<ElementModel>, d: DictionaryModel)
    requires
        canonical_dataset(elements, meta_encoding(), d),
        forall|i: int|
            0 <= i < elements.len() ==> (#[trigger] elements[i]).tag.group == 0x0002
                && elements[i].tag.element != 0,
        spec_encode_meta(elements) is Ok,
    ensures
        ({
            let rest = spec_encode_dataset(
                elements,
                0,
                meta_encoding(),
                meta_policy(),
                Seq::empty(),
            );
            let full = seq![group_length_element(rest->Ok_0.len() as u32)] + elements;
            &&& rest is Ok
            &&& rest->Ok_0.len() <= 0xFFFF_FFFF
            &&& canonical_dataset(full, meta_encoding(), d)
            &&& spec_encode_dataset(full, 0, meta_encoding(), meta_policy(), Seq::empty()) == Ok::<
                Seq<u8>,
                EncodeError,
            >(spec_encode_meta(elements)->Ok_0)
            &&& forall|i: int| 0 <= i < full.len() ==> (#[trigger] full[i]).tag.group == 0x0002
        }),
{
    let enc = meta_encoding();
    let policy = meta_policy();
    let e = Seq::<u8>::empty();
    lemma_nothing_skipped(elements, group_length_tag(), 0, enc, policy, e);
    let rest = spec_encode_dataset(elements, 0, enc, policy, e)->Ok_0;
    let n = rest.len() as u32;
    let gl = group_length_element(n);
    let full = seq![gl] + elements;
    let h = ElementHeader { tag: group_length_tag(), vr: VR::UL, len: 4 };
    let glb = spec_encode_header(h, enc) + u32_bytes(n, false);
    assert(bytes_of_u32s(seq![n], false) =~= u32_bytes(n, false)) by {
    }
    assert(spec_encode_element(gl, enc, policy) == Ok::<Seq<u8>, EncodeError>(glb));
    assert(full.drop_first() =~= elements);
    lemma_encode_from_one(full, elements, enc, policy, 0, e + glb);
    lemma_encode_dataset_shift(elements, 0, enc, policy, e + glb);
}

/// The bytes of a data set from its second element on are the bytes of the
/// data set without its first element.
proof fn lemma_encode_from_one(
    full: Seq<ElementModel>,
    rest: Seq<ElementModel>,
    enc: Encoding,
    policy: LengthPolicyModel,
    i: int,
    acc: Seq<u8>,
)
    requires
        full.len() > 0,
        rest == full.drop_first(),
        i >= 0,
    ensures
        spec_encode_dataset(full, i + 1, enc, policy, acc) == spec_encode_dataset(
            rest,
            i,
            enc,
            policy,
            acc,
        ),
    decreases rest.len() - i,
{
    if i >= rest.len() {
    } else {
        match spec_encode_element(rest[i], enc, policy) {
            Err(x) => {},
            Ok(v) => {
                lemma_encode_from_one(full, rest, enc, policy, i + 1, acc + v);
            },
        }
    }
}

/// The elements of a file meta group that were written are read back, and
/// reading stops behind them where the stream ends or goes on with a tag
/// that is not of the group.
proof fn lemma_meta_fields_round_trip(
    full: Seq<ElementModel>,
    i: int,
    d: DictionaryModel,
    b: Seq<u8>,
    pos: int,
    end: int,
)
    requires
        0 <= i <= full.len(),
        canonical_dataset(full, meta_encoding(), d),
        forall|k: int| 0 <= k < full.len() ==> (#[trigger] full[k]).tag.group == 0x0002,
        spec_encode_dataset(full, i, meta_encoding(), meta_policy(), Seq::empty()) is Ok,
        stands_at(
            b,
            pos,
            spec_encode_dataset(full, i, meta_encoding(), meta_policy(), Seq::empty())->Ok_0,
        ),
        pos + spec_encode_dataset(
            full,
            i,
            meta_encoding(),
            meta_policy(),
            Seq::empty(),
        )->Ok_0.len() <= end <= b.len(),
        ({
            let stop = pos + spec_encode_dataset(
                full,
                i,
                meta_encoding(),
                meta_policy(),
                Seq::empty(),
            )->Ok_0.len();
            stop + 4 > end || tag_at(b, stop, false).group != 0x0002
        }),
    ensures
        spec_decode_meta(b, pos, end, d, full.subrange(0, i)) matches Ok(v) && v.0 == full && v.1
            == pos + spec_encode_dataset(
            full,
            i,
            meta_encoding(),
            meta_policy(),
            Seq::empty(),
        )->Ok_0.len(),
    decreases full.len() - i,
{
    let enc = meta_encoding();
    let policy = meta_policy();
    let e = Seq::<u8>::empty();
    if i >= full.len() {
    } else {
        let v = spec_encode_element(full[i], enc, policy)->Ok_0;
        lemma_encode_dataset_shift(full, i + 1, enc, policy, v);
        let rest = spec_encode_dataset(full, i + 1, enc, policy, e)->Ok_0;
        let acc = full.subrange(0, i);
        lemma_split(b, pos, v, rest);
        lemma_element_round_trip(full[i], enc, d, policy, acc, b, pos, end);
        lemma_put_at_end(acc, full[i]);
        assert(acc.push(full[i]) =~= full.subrange(0, i + 1));
        lemma_meta_fields_round_trip(full, i + 1, d, b, pos + v.len(), end);
    }
}

/// What is found under a tag behind a first element with another tag.
proof fn lemma_first_string_behind(first: ElementModel, rest: Seq<ElementModel>, tag: Tag)
    requires
        first.tag != tag,
    ensures
        spec_first_string(seq![first] + rest, tag) == spec_first_string(rest, tag),
{
    let full = seq![first] + rest;
    assert(full.drop_first() =~= rest);
    match position_of(rest, tag) {
        Some(k) => {
            lemma_position_of(rest, tag);
        },
        None => {},
    }
}

/// The layout of the bytes of a file.
proof fn lemma_file_layout(obj: FileModel, policy: LengthPolicyModel)
    requires
        spec_encode_file(obj, policy) is Ok,
    ensures
        ({
            let b = spec_encode_file(obj, policy)->Ok_0;
            let meta = spec_encode_meta(obj.meta.elements)->Ok_0;
            let dsb = spec_encode_dataset(
                obj.dataset,
                0,
                obj.meta.transfer_syntax.encoding(),
                policy,
                Seq::empty(),
            )->Ok_0;
            &&& spec_has_magic(b)
            &&& b.len() == 132 + meta.len() + dsb.len()
            &&& stands_at(b, 132, meta)
            &&& stands_at(b, 132 + (meta.len() as int), dsb)
        }),
{
    let b = spec_encode_file(obj, policy)->Ok_0;
    let meta = spec_encode_meta(obj.meta.elements)->Ok_0;
    let dsb = spec_encode_dataset(
        obj.dataset,
        0,
        obj.meta.transfer_syntax.encoding(),
        policy,
        Seq::empty(),
    )->Ok_0;
    let pro = prologue();
    assert(b =~= pro + (meta + dsb));
    assert(b.subrange(0, b.len() as int) =~= b);
    lemma_split(b, 0, pro, meta + dsb);
    lemma_split(b, 132, meta, dsb);
}

/// Behind the table the stream ends, or goes on with a tag that a reader of
/// the table does not take for one of the table.
proof fn lemma_table_ends(
    ds: Seq<ElementModel>,
    enc: Encoding,
    d: DictionaryModel,
    policy: LengthPolicyModel,
    b: Seq<u8>,
    stop: int,
)
    requires
        canonical_dataset(ds, enc, d),
        spec_encode_dataset(ds, 0, enc, policy, Seq::empty()) is Ok,
        stands_at(b, stop, spec_encode_dataset(ds, 0, enc, policy, Seq::empty())->Ok_0),
        b.len() == stop + spec_encode_dataset(ds, 0, enc, policy, Seq::empty())->Ok_0.len(),
        ds.len() > 0 ==> group_as_little_endian(ds[0].tag, enc.big_endian) != 2,
    ensures
        stop + 4 > b.len() || tag_at(b, stop, false).group != 0x0002,
{
    let e = Seq::<u8>::empty();
    if ds.len() > 0 {
        let first = ds[0];
        let v = spec_encode_element(first, enc, policy)->Ok_0;
        lemma_encode_dataset_shift(ds, 1, enc, policy, v);
        let more = spec_encode_dataset(ds, 1, enc, policy, e)->Ok_0;
        lemma_split(b, stop, v, more);
        lemma_element_round_trip(first, enc, d, policy, ds.subrange(0, 0), b, stop, b.len() as int);
    }
}

/// The table that was written is the table that is resolved.
proof fn lemma_table_round_trip(
    m: MetaModel,
    registry: Seq<TransferSyntaxModel>,
    d: DictionaryModel,
    b: Seq<u8>,
)
    requires
        canonical_dataset(m.elements, meta_encoding(), d),
        forall|i: int|
            0 <= i < m.elements.len() ==> (#[trigger] m.elements[i]).tag.group == 0x0002
                && m.elements[i].tag.element != 0,
        spec_first_string(m.elements, transfer_syntax_tag()) == Some(m.transfer_syntax.uid),
        spec_first_string(m.elements, sop_class_tag()) == Some(m.media_storage_sop_class_uid),
        spec_first_string(m.elements, sop_instance_tag()) == Some(m.media_storage_sop_instance_uid),
        m.implementation_class_uid == match spec_first_string(
            m.elements,
            implementation_class_tag(),
        ) {
            Some(x) => x,
            None => Seq::empty(),
        },
        find_syntax(registry, m.transfer_syntax.uid, 0) matches Some(k) && registry[k]
            == m.transfer_syntax,
        spec_encode_meta(m.elements) is Ok,
        stands_at(b, 132, spec_encode_meta(m.elements)->Ok_0),
        ({
            let stop: int = 132 + (spec_encode_meta(m.elements)->Ok_0.len() as int);
            stop + 4 > b.len() || tag_at(b, stop, false).group != 0x0002
        }),
    ensures
        spec_resolve_meta(b, 132, registry, d) matches Ok(back) && ({
            let rest = spec_encode_dataset(
                m.elements,
                0,
                meta_encoding(),
                meta_policy(),
                Seq::empty(),
            )->Ok_0;
            &&& back.transfer_syntax == m.transfer_syntax
            &&& back.media_storage_sop_class_uid == m.media_storage_sop_class_uid
            &&& back.media_storage_sop_instance_uid == m.media_storage_sop_instance_uid
            &&& back.implementation_class_uid == m.implementation_class_uid
            &&& back.elements == seq![group_length_element(rest.len() as u32)] + m.elements
            &&& back.end == 132 + spec_encode_meta(m.elements)->Ok_0.len()
        }),
{
    let e = Seq::<u8>::empty();
    lemma_meta_as_dataset(m.elements, d);
    let rest = spec_encode_dataset(m.elements, 0, meta_encoding(), meta_policy(), e)->Ok_0;
    let gl = group_length_element(rest.len() as u32);
    let full = seq![gl] + m.elements;
    assert(full.subrange(0, 0) =~= Seq::<ElementModel>::empty());
    lemma_meta_fields_round_trip(full, 0, d, b, 132, b.len() as int);
    lemma_first_string_behind(gl, m.elements, transfer_syntax_tag());
    lemma_first_string_behind(gl, m.elements, sop_class_tag());
    lemma_first_string_behind(gl, m.elements, sop_instance_tag());
    lemma_first_string_behind(gl, m.elements, implementation_class_tag());
}

/// Round trip of a whole file: a canonical object that can be written is
/// read back from its file with its data set, its transfer syntax and its
/// identifiers as they were; the elements of its table come back with the
/// group length before them, and the table ends where the data set
/// starts.
pub proof fn lemma_file_round_trip(
    obj: FileModel,
    registry: Seq<TransferSyntaxModel>,
    d: DictionaryModel,
    policy: LengthPolicyModel,
)
    requires
        canonical_file(obj, registry, d),
        spec_encode_file(obj, policy) is Ok,
    ensures
        spec_decode_file(spec_encode_file(obj, policy)->Ok_0, registry, d) matches Ok(back) && ({
            let rest = spec_encode_dataset(
                obj.meta.elements,
                0,
                meta_encoding(),
                meta_policy(),
                Seq::empty(),
            )->Ok_0;
            &&& back.dataset == obj.dataset
            &&& back.meta.transfer_syntax == obj.meta.transfer_syntax
            &&& back.meta.media_storage_sop_class_uid == obj.meta.media_storage_sop_class_uid
            &&& back.meta.media_storage_sop_instance_uid == obj.meta.media_storage_sop_instance_uid
            &&& back.meta.implementation_class_uid == obj.meta.implementation_class_uid
            &&& back.meta.elements == seq![group_length_element(rest.len() as u32)]
                + obj.meta.elements
            &&& back.meta.end == 132 + spec_encode_meta(obj.meta.elements)->Ok_0.len()
        }),
{
    let m = obj.meta;
    let enc = m.transfer_syntax.encoding();
    let b = spec_encode_file(obj, policy)->Ok_0;
    let meta = spec_encode_meta(m.elements)->Ok_0;
    let stop: int = 132 + (meta.len() as int);
    lemma_file_layout(obj, policy);
    lemma_table_ends(obj.dataset, enc, d, policy, b, stop);
    lemma_table_round_trip(m, registry, d, b);
    assert(obj.dataset.subrange(0, 0) =~= Seq::<ElementModel>::empty());
    lemma_dataset_round_trip(obj.dataset, 0, enc, d, policy, b, stop, b.len() as int, false);
}

} // verus!
