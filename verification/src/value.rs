//! Primitive values: what an element holds when it is neither empty nor a
//! sequence, and how such a value is laid out in bytes.

use crate::bytes::{
    i16_from_bits, i16_of, i16_to_bits, i32_from_bits, i32_of, i32_to_bits, i64_from_bits, i64_of,
    i64_to_bits, lemma_signed_round_trip, lemma_u16_round_trip,
    lemma_u32_round_trip, lemma_u64_round_trip, push_u16, push_u32, push_u64, read_u16, read_u32, read_u64, u16_at,
    u16_bytes, u16_of, u32_at, u32_bytes, u32_of, u64_at, u64_bytes, u64_of,
};
use crate::tag::Tag;
use crate::text::{
    bytes_to_string, latin1_bytes, latin1_chars, is_latin1, string_to_bytes, copy_range, is_component, is_pad, join, join_strings, lemma_strings_round_trip,
    lemma_text_round_trip, pad_to_even, padded, spec_strings, spec_text, split_strings, trim_text,
    views, SPACE,
};
use crate::vr::{spec_swap_unit, spec_unit, spec_value_kind, ValueKind, VR};
use vstd::prelude::*;

verus! {

/// A primitive value: one or more values of one kind.
///
/// Text is held as bytes; floating point numbers are held as their bit
/// patterns.
#[derive(Clone, Debug, PartialEq, Eq)]
pub enum PrimitiveValue {
    /// The trimmed components of a multi-valued string.
    Strings(Vec<Vec<u8>>),
    /// One text, without the padding at its end.
    Text(Vec<u8>),
    /// Raw bytes. The 16-bit words of an OW value are held least
    /// significant byte first, whatever the byte order of the stream.
    Bytes(Vec<u8>),
    U16(Vec<u16>),
    I16(Vec<i16>),
    U32(Vec<u32>),
    I32(Vec<i32>),
    U64(Vec<u64>),
    I64(Vec<i64>),
    /// The bit patterns of 32-bit floating point numbers.
    F32(Vec<u32>),
    /// The bit patterns of 64-bit floating point numbers.
    F64(Vec<u64>),
    Tags(Vec<Tag>),
}

/// The mathematical model of a primitive value.
pub ghost enum PrimitiveModel {
    Strings(Seq<Seq<u8>>),
    Text(Seq<u8>),
    Bytes(Seq<u8>),
    U16(Seq<u16>),
    I16(Seq<i16>),
    U32(Seq<u32>),
    I32(Seq<i32>),
    U64(Seq<u64>),
    I64(Seq<i64>),
    F32(Seq<u32>),
    F64(Seq<u64>),
    Tags(Seq<Tag>),
}

impl View for PrimitiveValue {
    type V = PrimitiveModel;

    open spec fn view(&self) -> PrimitiveModel {
        match self {
            PrimitiveValue::Strings(v) => PrimitiveModel::Strings(views(v@)),
            PrimitiveValue::Text(v) => PrimitiveModel::Text(v@),
            PrimitiveValue::Bytes(v) => PrimitiveModel::Bytes(v@),
            PrimitiveValue::U16(v) => PrimitiveModel::U16(v@),
            PrimitiveValue::I16(v) => PrimitiveModel::I16(v@),
            PrimitiveValue::U32(v) => PrimitiveModel::U32(v@),
            PrimitiveValue::I32(v) => PrimitiveModel::I32(v@),
            PrimitiveValue::U64(v) => PrimitiveModel::U64(v@),
            PrimitiveValue::I64(v) => PrimitiveModel::I64(v@),
            PrimitiveValue::F32(v) => PrimitiveModel::F32(v@),
            PrimitiveValue::F64(v) => PrimitiveModel::F64(v@),
            PrimitiveValue::Tags(v) => PrimitiveModel::Tags(v@),
        }
    }
}

impl PrimitiveModel {
    /// The kind of the value.
    pub open spec fn kind(self) -> ValueKind {
        match self {
            PrimitiveModel::Strings(_) => ValueKind::Strings,
            PrimitiveModel::Text(_) => ValueKind::Text,
            PrimitiveModel::Bytes(_) => ValueKind::Bytes,
            PrimitiveModel::U16(_) => ValueKind::U16,
            PrimitiveModel::I16(_) => ValueKind::I16,
            PrimitiveModel::U32(_) => ValueKind::U32,
            PrimitiveModel::I32(_) => ValueKind::I32,
            PrimitiveModel::U64(_) => ValueKind::U64,
            PrimitiveModel::I64(_) => ValueKind::I64,
            PrimitiveModel::F32(_) => ValueKind::F32,
            PrimitiveModel::F64(_) => ValueKind::F64,
            PrimitiveModel::Tags(_) => ValueKind::Tags,
        }
    }

    /// The number of values held.
    pub open spec fn multiplicity(self) -> nat {
        match self {
            PrimitiveModel::Strings(v) => v.len(),
            PrimitiveModel::Text(_) => 1,
            PrimitiveModel::Bytes(v) => v.len(),
            PrimitiveModel::U16(v) => v.len(),
            PrimitiveModel::I16(v) => v.len(),
            PrimitiveModel::U32(v) => v.len(),
            PrimitiveModel::I32(v) => v.len(),
            PrimitiveModel::U64(v) => v.len(),
            PrimitiveModel::I64(v) => v.len(),
            PrimitiveModel::F32(v) => v.len(),
            PrimitiveModel::F64(v) => v.len(),
            PrimitiveModel::Tags(v) => v.len(),
        }
    }

    /// Whether the value is in the form in which decoding yields it, so
    /// that it is read back as it was written: text components are trimmed
    /// and hold no backslash, a text does not end with padding, raw bytes
    /// are even in number, and nothing is empty.
    pub open spec fn is_canonical(self) -> bool {
        match self {
            PrimitiveModel::Strings(parts) => {
                &&& parts.len() >= 1
                &&& forall|i: int| 0 <= i < parts.len() ==> is_component(#[trigger] parts[i])
                &&& join(parts).len() > 0
            },
            PrimitiveModel::Text(t) => t.len() > 0 && !is_pad(t.last()),
            PrimitiveModel::Bytes(b) => b.len() > 0 && b.len() % 2 == 0,
            _ => self.multiplicity() > 0,
        }
    }
}

/// The number of bytes that one value of a kind takes.
pub open spec fn spec_value_size(kind: ValueKind) -> int {
    match kind {
        ValueKind::Tags => 4,
        _ => spec_unit(kind) as int,
    }
}

/// The 16-bit values stored in `v`, one after the other.
pub open spec fn u16s_of(v: Seq<u8>, big_endian: bool) -> Seq<u16> {
    Seq::new((v.len() / 2) as nat, |i: int| u16_at(v, 2 * i, big_endian))
}

/// The 32-bit values stored in `v`, one after the other.
pub open spec fn u32s_of(v: Seq<u8>, big_endian: bool) -> Seq<u32> {
    Seq::new((v.len() / 4) as nat, |i: int| u32_at(v, 4 * i, big_endian))
}

/// The 64-bit values stored in `v`, one after the other.
pub open spec fn u64s_of(v: Seq<u8>, big_endian: bool) -> Seq<u64> {
    Seq::new((v.len() / 8) as nat, |i: int| u64_at(v, 8 * i, big_endian))
}

/// The bytes that store the 16-bit values `xs`, one after the other.
pub open spec fn bytes_of_u16s(xs: Seq<u16>, big_endian: bool) -> Seq<u8> {
    Seq::new(2 * xs.len(), |k: int| u16_bytes(xs[k / 2], big_endian)[k % 2])
}

/// The bytes that store the 32-bit values `xs`, one after the other.
pub open spec fn bytes_of_u32s(xs: Seq<u32>, big_endian: bool) -> Seq<u8> {
    Seq::new(4 * xs.len(), |k: int| u32_bytes(xs[k / 4], big_endian)[k % 4])
}

/// The bytes that store the 64-bit values `xs`, one after the other.
pub open spec fn bytes_of_u64s(xs: Seq<u64>, big_endian: bool) -> Seq<u8> {
    Seq::new(8 * xs.len(), |k: int| u64_bytes(xs[k / 8], big_endian)[k % 8])
}

/// The tags made of consecutive pairs of 16-bit values: group, then element.
pub open spec fn tags_of(ws: Seq<u16>) -> Seq<Tag> {
    Seq::new((ws.len() / 2) as nat, |i: int| Tag { group: ws[2 * i], element: ws[2 * i + 1] })
}

/// The 16-bit values of tags: for each tag its group, then its element.
pub open spec fn words_of_tags(ts: Seq<Tag>) -> Seq<u16> {
    Seq::new(
        2 * ts.len(),
        |k: int|
            if k % 2 == 0 {
                ts[k / 2].group
            } else {
                ts[k / 2].element
            },
    )
}

/// The bytes `s` with the two bytes of each pair in the other order; a last
/// byte without a partner stays where it is.
pub open spec fn swap_pairs(s: Seq<u8>) -> Seq<u8> {
    Seq::new(
        s.len(),
        |k: int|
            if k % 2 == 1 {
                s[k - 1]
            } else if k + 1 < s.len() {
                s[k + 1]
            } else {
                s[k]
            },
    )
}

/// Whether the raw bytes of a representation are stored with the bytes of
/// each pair swapped: the representation holds raw bytes that are swapped
/// in units of two (OW), and the byte order is big endian.
pub open spec fn spec_swaps_pairs(vr: VR, big_endian: bool) -> bool {
    big_endian && spec_value_kind(vr) == ValueKind::Bytes && spec_swap_unit(vr) == 2
}

/// Raw bytes as they stand on the other side of the byte order: in the
/// stream where `s` is what a value holds, and in the value where `s` is
/// what the stream holds. A value holds the words of OW least significant
/// byte first.
pub open spec fn across_byte_order(vr: VR, big_endian: bool, s: Seq<u8>) -> Seq<u8> {
    if spec_swaps_pairs(vr, big_endian) {
        swap_pairs(s)
    } else {
        s
    }
}

/// The value of the representation `vr` that the bytes `v` hold; `None`
/// where the number of bytes is not a multiple of the size of one value, or
/// the representation is the sequence.
pub open spec fn spec_decode_primitive(vr: VR, v: Seq<u8>, big_endian: bool) -> Option<
    PrimitiveModel,
> {
    let kind = spec_value_kind(vr);
    if kind == ValueKind::Sequence || v.len() % (spec_value_size(kind) as nat) != 0 {
        None
    } else {
        Some(
            match kind {
                ValueKind::Strings => PrimitiveModel::Strings(spec_strings(v)),
                ValueKind::Text => PrimitiveModel::Text(spec_text(v)),
                ValueKind::Bytes => PrimitiveModel::Bytes(across_byte_order(vr, big_endian, v)),
                ValueKind::U16 => PrimitiveModel::U16(u16s_of(v, big_endian)),
                ValueKind::I16 => PrimitiveModel::I16(
                    u16s_of(v, big_endian).map_values(|u: u16| i16_of(u)),
                ),
                ValueKind::U32 => PrimitiveModel::U32(u32s_of(v, big_endian)),
                ValueKind::I32 => PrimitiveModel::I32(
                    u32s_of(v, big_endian).map_values(|u: u32| i32_of(u)),
                ),
                ValueKind::U64 => PrimitiveModel::U64(u64s_of(v, big_endian)),
                ValueKind::I64 => PrimitiveModel::I64(
                    u64s_of(v, big_endian).map_values(|u: u64| i64_of(u)),
                ),
                ValueKind::F32 => PrimitiveModel::F32(u32s_of(v, big_endian)),
                ValueKind::F64 => PrimitiveModel::F64(u64s_of(v, big_endian)),
                ValueKind::Tags => PrimitiveModel::Tags(tags_of(u16s_of(v, big_endian))),
                ValueKind::Sequence => PrimitiveModel::Bytes(v),
            },
        )
    }
}

/// The bytes that store a value under the representation `vr`: text is
/// joined and padded to an even length with the padding of the
/// representation, raw bytes are padded with a zero byte and, for OW under
/// big endian, swapped in pairs, numbers are written in the byte order
/// given.
pub open spec fn spec_encode_primitive(m: PrimitiveModel, big_endian: bool, vr: VR) -> Seq<u8> {
    match m {
        PrimitiveModel::Strings(parts) => padded(join(parts), spec_pad(vr)),
        PrimitiveModel::Text(t) => padded(t, spec_pad(vr)),
        PrimitiveModel::Bytes(b) => across_byte_order(vr, big_endian, padded(b, 0)),
        PrimitiveModel::U16(xs) => bytes_of_u16s(xs, big_endian),
        PrimitiveModel::I16(xs) => bytes_of_u16s(xs.map_values(|x: i16| u16_of(x)), big_endian),
        PrimitiveModel::U32(xs) => bytes_of_u32s(xs, big_endian),
        PrimitiveModel::I32(xs) => bytes_of_u32s(xs.map_values(|x: i32| u32_of(x)), big_endian),
        PrimitiveModel::U64(xs) => bytes_of_u64s(xs, big_endian),
        PrimitiveModel::I64(xs) => bytes_of_u64s(xs.map_values(|x: i64| u64_of(x)), big_endian),
        PrimitiveModel::F32(xs) => bytes_of_u32s(xs, big_endian),
        PrimitiveModel::F64(xs) => bytes_of_u64s(xs, big_endian),
        PrimitiveModel::Tags(ts) => bytes_of_u16s(words_of_tags(ts), big_endian),
    }
}

/// The byte that pads the values of a representation to an even length: a
/// zero byte for unique identifiers and raw bytes, a space for other text.
pub open spec fn spec_pad(vr: VR) -> u8 {
    if vr == VR::UI {
        0
    } else if spec_value_kind(vr) == ValueKind::Strings || spec_value_kind(vr) == ValueKind::Text {
        0x20
    } else {
        0
    }
}

/// The bytes of the value numbered `i` stand at `2 * i`.
proof fn lemma_window16(xs: Seq<u16>, big_endian: bool, i: int)
    requires
        0 <= i < xs.len(),
    ensures
        bytes_of_u16s(xs, big_endian).subrange(2 * i, 2 * i + 2) == u16_bytes(xs[i], big_endian),
{
}

/// The bytes of the value numbered `i` stand at `4 * i`.
proof fn lemma_window32(xs: Seq<u32>, big_endian: bool, i: int)
    requires
        0 <= i < xs.len(),
    ensures
        bytes_of_u32s(xs, big_endian).subrange(4 * i, 4 * i + 4) == u32_bytes(xs[i], big_endian),
{
}

/// The bytes of the value numbered `i` stand at `8 * i`.
proof fn lemma_window64(xs: Seq<u64>, big_endian: bool, i: int)
    requires
        0 <= i < xs.len(),
    ensures
        bytes_of_u64s(xs, big_endian).subrange(8 * i, 8 * i + 8) == u64_bytes(xs[i], big_endian),
{
}

/// 16-bit values are read back from the bytes that store them.
pub proof fn lemma_u16s_round_trip(xs: Seq<u16>, big_endian: bool)
    ensures
        u16s_of(bytes_of_u16s(xs, big_endian), big_endian) == xs,
{
    let b = bytes_of_u16s(xs, big_endian);
    assert forall|i: int| 0 <= i < xs.len() implies u16_at(b, 2 * i, big_endian) == xs[i] by {
        lemma_window16(xs, big_endian, i);
        lemma_u16_round_trip(b, 2 * i, xs[i], big_endian);
    }
}

/// 32-bit values are read back from the bytes that store them.
pub proof fn lemma_u32s_round_trip(xs: Seq<u32>, big_endian: bool)
    ensures
        u32s_of(bytes_of_u32s(xs, big_endian), big_endian) == xs,
{
    let b = bytes_of_u32s(xs, big_endian);
    assert forall|i: int| 0 <= i < xs.len() implies u32_at(b, 4 * i, big_endian) == xs[i] by {
        lemma_window32(xs, big_endian, i);
        lemma_u32_round_trip(b, 4 * i, xs[i], big_endian);
    }
}

/// 64-bit values are read back from the bytes that store them.
pub proof fn lemma_u64s_round_trip(xs: Seq<u64>, big_endian: bool)
    ensures
        u64s_of(bytes_of_u64s(xs, big_endian), big_endian) == xs,
{
    let b = bytes_of_u64s(xs, big_endian);
    assert forall|i: int| 0 <= i < xs.len() implies u64_at(b, 8 * i, big_endian) == xs[i] by {
        lemma_window64(xs, big_endian, i);
        lemma_u64_round_trip(b, 8 * i, xs[i], big_endian);
    }
}

/// Tags are read back from the 16-bit values that store them.
pub proof fn lemma_tags_round_trip(ts: Seq<Tag>)
    ensures
        tags_of(words_of_tags(ts)) == ts,
{
}

/// Swapping the bytes of each pair twice gives the bytes back.
pub proof fn lemma_swap_pairs_twice(s: Seq<u8>)
    ensures
        swap_pairs(swap_pairs(s)) == s,
        swap_pairs(s).len() == s.len(),
{
    assert(swap_pairs(swap_pairs(s)) =~= s);
}

/// A canonical value is read back from its bytes as it was written.
pub proof fn lemma_primitive_round_trip(m: PrimitiveModel, big_endian: bool, vr: VR)
    requires
        m.is_canonical(),
        m.kind() == spec_value_kind(vr),
    ensures
        spec_decode_primitive(vr, spec_encode_primitive(m, big_endian, vr), big_endian) == Some(m),
        spec_encode_primitive(m, big_endian, vr).len() > 0,
        spec_encode_primitive(m, big_endian, vr).len() % 2 == 0,
{
    let pad = spec_pad(vr);
    match m {
        PrimitiveModel::Strings(parts) => {
            lemma_strings_round_trip(parts, pad);
        },
        PrimitiveModel::Text(t) => {
            lemma_text_round_trip(t, pad);
        },
        PrimitiveModel::Bytes(b) => {
            lemma_swap_pairs_twice(b);
        },
        PrimitiveModel::U16(xs) => {
            lemma_u16s_round_trip(xs, big_endian);
        },
        PrimitiveModel::I16(xs) => {
            let us = xs.map_values(|x: i16| u16_of(x));
            lemma_u16s_round_trip(us, big_endian);
            assert forall|i: int| 0 <= i < xs.len() implies i16_of(us[i]) == xs[i] by {
                lemma_signed_round_trip(xs[i], 0, 0);
            }
            assert(us.map_values(|u: u16| i16_of(u)) =~= xs);
        },
        PrimitiveModel::U32(xs) => {
            lemma_u32s_round_trip(xs, big_endian);
        },
        PrimitiveModel::I32(xs) => {
            let us = xs.map_values(|x: i32| u32_of(x));
            lemma_u32s_round_trip(us, big_endian);
            assert forall|i: int| 0 <= i < xs.len() implies i32_of(us[i]) == xs[i] by {
                lemma_signed_round_trip(0, xs[i], 0);
            }
            assert(us.map_values(|u: u32| i32_of(u)) =~= xs);
        },
        PrimitiveModel::U64(xs) => {
            lemma_u64s_round_trip(xs, big_endian);
        },
        PrimitiveModel::I64(xs) => {
            let us = xs.map_values(|x: i64| u64_of(x));
            lemma_u64s_round_trip(us, big_endian);
            assert forall|i: int| 0 <= i < xs.len() implies i64_of(us[i]) == xs[i] by {
                lemma_signed_round_trip(0, 0, xs[i]);
            }
            assert(us.map_values(|u: u64| i64_of(u)) =~= xs);
        },
        PrimitiveModel::F32(xs) => {
            lemma_u32s_round_trip(xs, big_endian);
        },
        PrimitiveModel::F64(xs) => {
            lemma_u64s_round_trip(xs, big_endian);
        },
        PrimitiveModel::Tags(ts) => {
            lemma_u16s_round_trip(words_of_tags(ts), big_endian);
            lemma_tags_round_trip(ts);
        },
    }
}

fn decode_u16s(value: &[u8], big_endian: bool) -> (out: Vec<u16>)
    requires
        value@.len() % 2 == 0,
    ensures
        out@ == u16s_of(value@, big_endian),
{
    let n = value.len() / 2;
    let mut out: Vec<u16> = Vec::new();
    let mut i: usize = 0;
    while i < n
        invariant
            i <= n,
            n == value@.len() / 2,
            value@.len() % 2 == 0,
            value@.len() <= usize::MAX,
            out@.len() == i,
            forall|j: int| 0 <= j < i ==> out@[j] == u16_at(value@, 2 * j, big_endian),
        decreases n - i,
    {
        out.push(read_u16(value, 2 * i, big_endian));
        i += 1;
    }
    out
}

fn decode_u32s(value: &[u8], big_endian: bool) -> (out: Vec<u32>)
    requires
        value@.len() % 4 == 0,
    ensures
        out@ == u32s_of(value@, big_endian),
{
    let n = value.len() / 4;
    let mut out: Vec<u32> = Vec::new();
    let mut i: usize = 0;
    while i < n
        invariant
            i <= n,
            n == value@.len() / 4,
            value@.len() % 4 == 0,
            value@.len() <= usize::MAX,
            out@.len() == i,
            forall|j: int| 0 <= j < i ==> out@[j] == u32_at(value@, 4 * j, big_endian),
        decreases n - i,
    {
        out.push(read_u32(value, 4 * i, big_endian));
        i += 1;
    }
    out
}

fn decode_u64s(value: &[u8], big_endian: bool) -> (out: Vec<u64>)
    requires
        value@.len() % 8 == 0,
    ensures
        out@ == u64s_of(value@, big_endian),
{
    let n = value.len() / 8;
    let mut out: Vec<u64> = Vec::new();
    let mut i: usize = 0;
    while i < n
        invariant
            i <= n,
            n == value@.len() / 8,
            value@.len() % 8 == 0,
            value@.len() <= usize::MAX,
            out@.len() == i,
            forall|j: int| 0 <= j < i ==> out@[j] == u64_at(value@, 8 * j, big_endian),
        decreases n - i,
    {
        out.push(read_u64(value, 8 * i, big_endian));
        i += 1;
    }
    out
}

fn signed16(us: &Vec<u16>) -> (out: Vec<i16>)
    ensures
        out@ == us@.map_values(|u: u16| i16_of(u)),
{
    let mut out: Vec<i16> = Vec::new();
    let mut i: usize = 0;
    while i < us.len()
        invariant
            i <= us@.len(),
            out@.len() == i,
            forall|j: int| 0 <= j < i ==> out@[j] == i16_of(us@[j]),
        decreases us@.len() - i,
    {
        out.push(i16_from_bits(us[i]));
        i += 1;
    }
    out
}

fn signed32(us: &Vec<u32>) -> (out: Vec<i32>)
    ensures
        out@ == us@.map_values(|u: u32| i32_of(u)),
{
    let mut out: Vec<i32> = Vec::new();
    let mut i: usize = 0;
    while i < us.len()
        invariant
            i <= us@.len(),
            out@.len() == i,
            forall|j: int| 0 <= j < i ==> out@[j] == i32_of(us@[j]),
        decreases us@.len() - i,
    {
        out.push(i32_from_bits(us[i]));
        i += 1;
    }
    out
}

fn signed64(us: &Vec<u64>) -> (out: Vec<i64>)
    ensures
        out@ == us@.map_values(|u: u64| i64_of(u)),
{
    let mut out: Vec<i64> = Vec::new();
    let mut i: usize = 0;
    while i < us.len()
        invariant
            i <= us@.len(),
            out@.len() == i,
            forall|j: int| 0 <= j < i ==> out@[j] == i64_of(us@[j]),
        decreases us@.len() - i,
    {
        out.push(i64_from_bits(us[i]));
        i += 1;
    }
    out
}

fn pair_tags(ws: &Vec<u16>) -> (out: Vec<Tag>)
    ensures
        out@ == tags_of(ws@),
{
    let n = ws.len() / 2;
    let mut out: Vec<Tag> = Vec::new();
    let mut i: usize = 0;
    while i < n
        invariant
            i <= n,
            n == ws@.len() / 2,
            ws@.len() <= usize::MAX,
            out@.len() == i,
            forall|j: int|
                0 <= j < i ==> out@[j] == (Tag { group: ws@[2 * j], element: ws@[2 * j + 1] }),
        decreases n - i,
    {
        out.push(Tag { group: ws[2 * i], element: ws[2 * i + 1] });
        i += 1;
    }
    out
}

fn encode_u16s(xs: &Vec<u16>, big_endian: bool) -> (out: Vec<u8>)
    ensures
        out@ == bytes_of_u16s(xs@, big_endian),
{
    let mut out: Vec<u8> = Vec::new();
    let mut i: usize = 0;
    while i < xs.len()
        invariant
            i <= xs@.len(),
            out@ == bytes_of_u16s(xs@.subrange(0, i as int), big_endian),
        decreases xs@.len() - i,
    {
        push_u16(&mut out, xs[i], big_endian);
        i += 1;
    }
    out
}

fn encode_u32s(xs: &Vec<u32>, big_endian: bool) -> (out: Vec<u8>)
    ensures
        out@ == bytes_of_u32s(xs@, big_endian),
{
    let mut out: Vec<u8> = Vec::new();
    let mut i: usize = 0;
    while i < xs.len()
        invariant
            i <= xs@.len(),
            out@ == bytes_of_u32s(xs@.subrange(0, i as int), big_endian),
        decreases xs@.len() - i,
    {
        push_u32(&mut out, xs[i], big_endian);
        i += 1;
    }
    out
}

fn encode_u64s(xs: &Vec<u64>, big_endian: bool) -> (out: Vec<u8>)
    ensures
        out@ == bytes_of_u64s(xs@, big_endian),
{
    let mut out: Vec<u8> = Vec::new();
    let mut i: usize = 0;
    while i < xs.len()
        invariant
            i <= xs@.len(),
            out@ == bytes_of_u64s(xs@.subrange(0, i as int), big_endian),
        decreases xs@.len() - i,
    {
        push_u64(&mut out, xs[i], big_endian);
        i += 1;
    }
    out
}

fn bits16(xs: &Vec<i16>) -> (out: Vec<u16>)
    ensures
        out@ == xs@.map_values(|x: i16| u16_of(x)),
{
    let mut out: Vec<u16> = Vec::new();
    let mut i: usize = 0;
    while i < xs.len()
        invariant
            i <= xs@.len(),
            out@.len() == i,
            forall|j: int| 0 <= j < i ==> out@[j] == u16_of(xs@[j]),
        decreases xs@.len() - i,
    {
        out.push(i16_to_bits(xs[i]));
        i += 1;
    }
    out
}

fn bits32(xs: &Vec<i32>) -> (out: Vec<u32>)
    ensures
        out@ == xs@.map_values(|x: i32| u32_of(x)),
{
    let mut out: Vec<u32> = Vec::new();
    let mut i: usize = 0;
    while i < xs.len()
        invariant
            i <= xs@.len(),
            out@.len() == i,
            forall|j: int| 0 <= j < i ==> out@[j] == u32_of(xs@[j]),
        decreases xs@.len() - i,
    {
        out.push(i32_to_bits(xs[i]));
        i += 1;
    }
    out
}

fn bits64(xs: &Vec<i64>) -> (out: Vec<u64>)
    ensures
        out@ == xs@.map_values(|x: i64| u64_of(x)),
{
    let mut out: Vec<u64> = Vec::new();
    let mut i: usize = 0;
    while i < xs.len()
        invariant
            i <= xs@.len(),
            out@.len() == i,
            forall|j: int| 0 <= j < i ==> out@[j] == u64_of(xs@[j]),
        decreases xs@.len() - i,
    {
        out.push(i64_to_bits(xs[i]));
        i += 1;
    }
    out
}

fn tag_words(ts: &Vec<Tag>) -> (out: Vec<u16>)
    ensures
        out@ == words_of_tags(ts@),
{
    let mut out: Vec<u16> = Vec::new();
    let mut i: usize = 0;
    while i < ts.len()
        invariant
            i <= ts@.len(),
            out@ == words_of_tags(ts@.subrange(0, i as int)),
        decreases ts@.len() - i,
    {
        out.push(ts[i].group);
        out.push(ts[i].element);
        i += 1;
    }
    out
}

/// The byte that pads the values of a representation to an even length.
pub fn pad_byte(vr: VR) -> (p: u8)
    ensures
        p == spec_pad(vr),
        is_pad(p),
{
    match vr {
        VR::UI => 0,
        _ => match vr.value_kind() {
            ValueKind::Strings | ValueKind::Text => SPACE,
            _ => 0,
        },
    }
}

/// The bytes of `value` with the two bytes of each pair in the other order.
pub fn swap_byte_pairs(value: &[u8]) -> (out: Vec<u8>)
    ensures
        out@ == swap_pairs(value@),
{
    let n = value.len();
    let mut out: Vec<u8> = Vec::new();
    let mut i: usize = 0;
    while i < n
        invariant
            i <= n,
            n == value@.len(),
            i % 2 == 0 || i == n,
            out@.len() == i,
            forall|k: int| 0 <= k < i ==> out@[k] == swap_pairs(value@)[k],
        decreases n - i,
    {
        if n - i >= 2 {
            out.push(value[i + 1]);
            out.push(value[i]);
            i += 2;
        } else {
            out.push(value[i]);
            i += 1;
        }
    }
    assert(out@ =~= swap_pairs(value@));
    out
}

/// Raw bytes as they stand on the other side of the byte order.
fn bytes_across(vr: VR, big_endian: bool, value: &[u8]) -> (out: Vec<u8>)
    ensures
        out@ == across_byte_order(vr, big_endian, value@),
{
    let swaps = big_endian && vr.swap_unit() == 2 && match vr.value_kind() {
        ValueKind::Bytes => true,
        _ => false,
    };
    if swaps {
        swap_byte_pairs(value)
    } else {
        let all = copy_range(value, 0, value.len());
        assert(value@.subrange(0, value@.len() as int) == value@);
        all
    }
}

/// Reads the value of the representation `vr` that the bytes `value` hold.
///
/// `None` comes exactly where the number of bytes is not a multiple of the
/// size of one value, or the representation is the sequence.
pub fn decode_primitive(vr: VR, value: &[u8], big_endian: bool) -> (r: Option<PrimitiveValue>)
    ensures
        r is Some <==> spec_decode_primitive(vr, value@, big_endian) is Some,
        r matches Some(p) ==> Some(p@) == spec_decode_primitive(vr, value@, big_endian)
            && p@.kind() == spec_value_kind(vr),
{
    let n = value.len();
    let kind = vr.value_kind();
    match kind {
        ValueKind::Sequence => None,
        ValueKind::Strings => Some(PrimitiveValue::Strings(split_strings(value))),
        ValueKind::Text => Some(PrimitiveValue::Text(trim_text(value))),
        ValueKind::Bytes => Some(PrimitiveValue::Bytes(bytes_across(vr, big_endian, value))),
        ValueKind::U16 => {
            if n % 2 != 0 {
                None
            } else {
                Some(PrimitiveValue::U16(decode_u16s(value, big_endian)))
            }
        },
        ValueKind::I16 => {
            if n % 2 != 0 {
                None
            } else {
                let us = decode_u16s(value, big_endian);
                Some(PrimitiveValue::I16(signed16(&us)))
            }
        },
        ValueKind::U32 => {
            if n % 4 != 0 {
                None
            } else {
                Some(PrimitiveValue::U32(decode_u32s(value, big_endian)))
            }
        },
        ValueKind::I32 => {
            if n % 4 != 0 {
                None
            } else {
                let us = decode_u32s(value, big_endian);
                Some(PrimitiveValue::I32(signed32(&us)))
            }
        },
        ValueKind::U64 => {
            if n % 8 != 0 {
                None
            } else {
                Some(PrimitiveValue::U64(decode_u64s(value, big_endian)))
            }
        },
        ValueKind::I64 => {
            if n % 8 != 0 {
                None
            } else {
                let us = decode_u64s(value, big_endian);
                Some(PrimitiveValue::I64(signed64(&us)))
            }
        },
        ValueKind::F32 => {
            if n % 4 != 0 {
                None
            } else {
                Some(PrimitiveValue::F32(decode_u32s(value, big_endian)))
            }
        },
        ValueKind::F64 => {
            if n % 8 != 0 {
                None
            } else {
                Some(PrimitiveValue::F64(decode_u64s(value, big_endian)))
            }
        },
        ValueKind::Tags => {
            if n % 4 != 0 {
                None
            } else {
                let ws = decode_u16s(value, big_endian);
                Some(PrimitiveValue::Tags(pair_tags(&ws)))
            }
        },
    }
}

/// Writes the bytes that store a value under the representation `vr`.
pub fn encode_primitive(value: &PrimitiveValue, big_endian: bool, vr: VR) -> (out: Vec<u8>)
    ensures
        out@ == spec_encode_primitive(value@, big_endian, vr),
{
    match value {
        PrimitiveValue::Strings(parts) => {
            let mut out = join_strings(parts);
            pad_to_even(&mut out, pad_byte(vr));
            out
        },
        PrimitiveValue::Text(t) => {
            let mut out = copy_range(t.as_slice(), 0, t.len());
            assert(t@.subrange(0, t@.len() as int) == t@);
            pad_to_even(&mut out, pad_byte(vr));
            out
        },
        PrimitiveValue::Bytes(b) => {
            let mut out = copy_range(b.as_slice(), 0, b.len());
            assert(b@.subrange(0, b@.len() as int) == b@);
            pad_to_even(&mut out, 0);
            bytes_across(vr, big_endian, out.as_slice())
        },
        PrimitiveValue::U16(xs) => encode_u16s(xs, big_endian),
        PrimitiveValue::I16(xs) => {
            let us = bits16(xs);
            encode_u16s(&us, big_endian)
        },
        PrimitiveValue::U32(xs) => encode_u32s(xs, big_endian),
        PrimitiveValue::I32(xs) => {
            let us = bits32(xs);
            encode_u32s(&us, big_endian)
        },
        PrimitiveValue::U64(xs) => encode_u64s(xs, big_endian),
        PrimitiveValue::I64(xs) => {
            let us = bits64(xs);
            encode_u64s(&us, big_endian)
        },
        PrimitiveValue::F32(xs) => encode_u32s(xs, big_endian),
        PrimitiveValue::F64(xs) => encode_u64s(xs, big_endian),
        PrimitiveValue::Tags(ts) => {
            let ws = tag_words(ts);
            encode_u16s(&ws, big_endian)
        },
    }
}

impl PrimitiveValue {
    /// The kind of the value.
    pub fn kind(&self) -> (k: ValueKind)
        ensures
            k == self@.kind(),
    {
        match self {
            PrimitiveValue::Strings(_) => ValueKind::Strings,
            PrimitiveValue::Text(_) => ValueKind::Text,
            PrimitiveValue::Bytes(_) => ValueKind::Bytes,
            PrimitiveValue::U16(_) => ValueKind::U16,
            PrimitiveValue::I16(_) => ValueKind::I16,
            PrimitiveValue::U32(_) => ValueKind::U32,
            PrimitiveValue::I32(_) => ValueKind::I32,
            PrimitiveValue::U64(_) => ValueKind::U64,
            PrimitiveValue::I64(_) => ValueKind::I64,
            PrimitiveValue::F32(_) => ValueKind::F32,
            PrimitiveValue::F64(_) => ValueKind::F64,
            PrimitiveValue::Tags(_) => ValueKind::Tags,
        }
    }

    /// The number of values held.
    pub fn multiplicity(&self) -> (n: usize)
        ensures
            n == self@.multiplicity(),
    {
        match self {
            PrimitiveValue::Strings(v) => v.len(),
            PrimitiveValue::Text(_) => 1,
            PrimitiveValue::Bytes(v) => v.len(),
            PrimitiveValue::U16(v) => v.len(),
            PrimitiveValue::I16(v) => v.len(),
            PrimitiveValue::U32(v) => v.len(),
            PrimitiveValue::I32(v) => v.len(),
            PrimitiveValue::U64(v) => v.len(),
            PrimitiveValue::I64(v) => v.len(),
            PrimitiveValue::F32(v) => v.len(),
            PrimitiveValue::F64(v) => v.len(),
            PrimitiveValue::Tags(v) => v.len(),
        }
    }

    /// The value that a text stands for: its components, split at each
    /// backslash and trimmed. `None` exactly where the text holds a
    /// character outside the default character repertoire.
    pub fn from_text(text: &str) -> (r: Option<PrimitiveValue>)
        ensures
            r is Some <==> is_latin1(text@),
            r matches Some(p) ==> p@ == PrimitiveModel::Strings(spec_strings(latin1_bytes(text@))),
    {
        match string_to_bytes(text) {
            Some(bytes) => Some(PrimitiveValue::Strings(split_strings(bytes.as_slice()))),
            None => None,
        }
    }

    /// The value that holds one unsigned 16-bit number.
    pub fn from_u16(v: u16) -> (p: PrimitiveValue)
        ensures
            p@ == PrimitiveModel::U16(seq![v]),
    {
        let mut values: Vec<u16> = Vec::new();
        values.push(v);
        PrimitiveValue::U16(values)
    }

    /// The value that holds one unsigned 32-bit number.
    pub fn from_u32(v: u32) -> (p: PrimitiveValue)
        ensures
            p@ == PrimitiveModel::U32(seq![v]),
    {
        let mut values: Vec<u32> = Vec::new();
        values.push(v);
        PrimitiveValue::U32(values)
    }

    /// The value that holds a copy of raw bytes.
    pub fn from_bytes(bytes: &[u8]) -> (p: PrimitiveValue)
        ensures
            p@ == PrimitiveModel::Bytes(bytes@),
    {
        let copy = copy_range(bytes, 0, bytes.len());
        assert(bytes@.subrange(0, bytes@.len() as int) == bytes@);
        PrimitiveValue::Bytes(copy)
    }

    /// The text of a textual value: its components joined by backslashes,
    /// or the single text. `None` for a value of any other kind.
    pub fn to_text(&self) -> (r: Option<String>)
        ensures
            match self@ {
                PrimitiveModel::Strings(parts) => r matches Some(s) && s@ == latin1_chars(
                    join(parts),
                ),
                PrimitiveModel::Text(t) => r matches Some(s) && s@ == latin1_chars(t),
                _ => r is None,
            },
    {
        match self {
            PrimitiveValue::Strings(parts) => {
                let joined = join_strings(parts);
                Some(bytes_to_string(joined.as_slice()))
            },
            PrimitiveValue::Text(t) => Some(bytes_to_string(t.as_slice())),
            _ => None,
        }
    }

    /// The first number of a value of unsigned 16-bit numbers.
    pub fn first_u16(&self) -> (r: Option<u16>)
        ensures
            match self@ {
                PrimitiveModel::U16(xs) => if xs.len() > 0 {
                    r == Some(xs[0])
                } else {
                    r is None
                },
                _ => r is None,
            },
    {
        match self {
            PrimitiveValue::U16(xs) => if xs.len() > 0 {
                Some(xs[0])
            } else {
                None
            },
            _ => None,
        }
    }

    /// The first number of a value of unsigned 32-bit numbers.
    pub fn first_u32(&self) -> (r: Option<u32>)
        ensures
            match self@ {
                PrimitiveModel::U32(xs) => if xs.len() > 0 {
                    r == Some(xs[0])
                } else {
                    r is None
                },
                _ => r is None,
            },
    {
        match self {
            PrimitiveValue::U32(xs) => if xs.len() > 0 {
                Some(xs[0])
            } else {
                None
            },
            _ => None,
        }
    }
}

} // verus!
