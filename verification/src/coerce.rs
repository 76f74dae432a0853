//! Building an element from a text with the help of the dictionary: the
//! dictionary gives the representation, and the text is read as a value
//! of the kind of that representation.

use crate::dictionary::spec_lookup;
use crate::dictionary::creator_in;
use crate::dictionary::Dictionary;
use crate::dictionary::DictionaryModel;
use crate::element::DataElement;
use crate::element::DataSet;
use crate::element::ElementModel;
use crate::element::Value;
use crate::element::ValueModel;
use crate::parse::parse_integer;
use crate::parse::parse_unsigned;
use crate::parse::spec_parse_integer;
use crate::parse::spec_parse_unsigned;
use crate::tag::Tag;
use crate::text::is_latin1;
use crate::text::latin1_bytes;
use crate::text::spec_strings;
use crate::text::spec_text;
use crate::text::split_strings;
use crate::text::string_to_bytes;
use crate::text::trim_text;
use crate::text::views;
use crate::value::PrimitiveModel;
use crate::value::PrimitiveValue;
use crate::vr::spec_value_kind;
use crate::vr::ValueKind;
use vstd::prelude::*;

verus! {

/// Why a text could not be made the value of an element.
#[derive(Clone, Copy, Debug, PartialEq, Eq, Structural)]
pub enum CoerceError {
    /// The dictionary does not know the tag.
    UnknownTag,
    /// The text holds a character outside the default character repertoire.
    NotInRepertoire,
    /// A component of the text does not write a number of the kind of the
    /// representation.
    NotANumber,
    /// Values of this kind cannot be read from a text.
    Unsupported(ValueKind),
}

/// Whether every component writes an unsigned number up to `max`.
pub open spec fn all_unsigned(parts: Seq<Seq<u8>>, max: u64) -> bool {
    forall|i: int| 0 <= i < parts.len() ==> spec_parse_unsigned(#[trigger] parts[i], max) is Some
}

/// The unsigned numbers that the components write.
pub open spec fn unsigned_values(parts: Seq<Seq<u8>>, max: u64) -> Seq<u64> {
    Seq::new(parts.len(), |i: int| spec_parse_unsigned(parts[i], max)->0)
}

/// Whether every component writes an integer in the range `min..=max`.
pub open spec fn all_integers(parts: Seq<Seq<u8>>, min: i64, max: i64) -> bool {
    forall|i: int|
        0 <= i < parts.len() ==> spec_parse_integer(#[trigger] parts[i], min, max) is Some
}

/// The integers that the components write.
pub open spec fn integer_values(parts: Seq<Seq<u8>>, min: i64, max: i64) -> Seq<i64> {
    Seq::new(parts.len(), |i: int| spec_parse_integer(parts[i], min, max)->0)
}

/// The value of kind `kind` that the bytes of a text stand for.
///
/// Text is split and trimmed as the decoder does it. For a kind of
/// integers each component must write a number of that kind. Raw bytes,
/// floating point numbers, tags and sequences cannot be read from a text.
pub open spec fn spec_value_from_text(kind: ValueKind, bytes: Seq<u8>) -> Result<
    PrimitiveModel,
    CoerceError,
> {
    let parts = spec_strings(bytes);
    match kind {
        ValueKind::Strings => Ok(PrimitiveModel::Strings(parts)),
        ValueKind::Text => Ok(PrimitiveModel::Text(spec_text(bytes))),
        ValueKind::U16 => if all_unsigned(parts, 0xFFFF) {
            Ok(PrimitiveModel::U16(unsigned_values(parts, 0xFFFF).map_values(|v: u64| v as u16)))
        } else {
            Err(CoerceError::NotANumber)
        },
        ValueKind::U32 => if all_unsigned(parts, 0xFFFF_FFFF) {
            Ok(
                PrimitiveModel::U32(
                    unsigned_values(parts, 0xFFFF_FFFF).map_values(|v: u64| v as u32),
                ),
            )
        } else {
            Err(CoerceError::NotANumber)
        },
        ValueKind::U64 => if all_unsigned(parts, u64::MAX) {
            Ok(PrimitiveModel::U64(unsigned_values(parts, u64::MAX)))
        } else {
            Err(CoerceError::NotANumber)
        },
        ValueKind::I16 => if all_integers(parts, i16::MIN as i64, 0x7FFF) {
            Ok(
                PrimitiveModel::I16(
                    integer_values(parts, i16::MIN as i64, 0x7FFF).map_values(|v: i64| v as i16),
                ),
            )
        } else {
            Err(CoerceError::NotANumber)
        },
        ValueKind::I32 => if all_integers(parts, i32::MIN as i64, 0x7FFF_FFFF) {
            Ok(
                PrimitiveModel::I32(
                    integer_values(parts, i32::MIN as i64, 0x7FFF_FFFF).map_values(
                        |v: i64| v as i32,
                    ),
                ),
            )
        } else {
            Err(CoerceError::NotANumber)
        },
        ValueKind::I64 => if all_integers(parts, i64::MIN, i64::MAX) {
            Ok(PrimitiveModel::I64(integer_values(parts, i64::MIN, i64::MAX)))
        } else {
            Err(CoerceError::NotANumber)
        },
        _ => Err(CoerceError::Unsupported(kind)),
    }
}

/// The element with tag `tag` that a text stands for: its representation is
/// the one that the dictionary gives for the tag, with the private creators
/// that `ds` names; an empty text gives an element without a value.
pub open spec fn spec_element_from_text(
    d: DictionaryModel,
    ds: Seq<ElementModel>,
    tag: Tag,
    text: Seq<char>,
) -> Result<ElementModel, CoerceError> {
    match spec_lookup(d, tag, creator_in(ds, tag)) {
        None => Err(CoerceError::UnknownTag),
        Some(entry) => if !is_latin1(text) {
            Err(CoerceError::NotInRepertoire)
        } else if text.len() == 0 {
            Ok(ElementModel { tag, vr: entry.vr, value: ValueModel::Empty })
        } else {
            match spec_value_from_text(spec_value_kind(entry.vr), latin1_bytes(text)) {
                Err(e) => Err(e),
                Ok(p) => Ok(ElementModel { tag, vr: entry.vr, value: ValueModel::Primitive(p) }),
            }
        },
    }
}

fn parse_all_unsigned(parts: &Vec<Vec<u8>>, max: u64) -> (r: Option<Vec<u64>>)
    ensures
        r is Some <==> all_unsigned(views(parts@), max),
        r matches Some(v) ==> v@ == unsigned_values(views(parts@), max),
{
    let mut out: Vec<u64> = Vec::new();
    let mut i: usize = 0;
    while i < parts.len()
        invariant
            i <= parts@.len(),
            out@.len() == i,
            forall|k: int|
                0 <= k < i ==> spec_parse_unsigned(#[trigger] views(parts@)[k], max) == Some(
                    out@[k],
                ),
        decreases parts@.len() - i,
    {
        match parse_unsigned(parts[i].as_slice(), max) {
            Some(v) => {
                out.push(v);
            },
            None => {
                assert(views(parts@)[i as int] == parts@[i as int]@);
                return None;
            },
        }
        i += 1;
    }
    Some(out)
}

fn parse_all_integers(parts: &Vec<Vec<u8>>, min: i64, max: i64) -> (r: Option<Vec<i64>>)
    ensures
        r is Some <==> all_integers(views(parts@), min, max),
        r matches Some(v) ==> v@ == integer_values(views(parts@), min, max),
{
    let mut out: Vec<i64> = Vec::new();
    let mut i: usize = 0;
    while i < parts.len()
        invariant
            i <= parts@.len(),
            out@.len() == i,
            forall|k: int|
                0 <= k < i ==> spec_parse_integer(#[trigger] views(parts@)[k], min, max) == Some(
                    out@[k],
                ),
        decreases parts@.len() - i,
    {
        match parse_integer(parts[i].as_slice(), min, max) {
            Some(v) => {
                out.push(v);
            },
            None => {
                assert(views(parts@)[i as int] == parts@[i as int]@);
                return None;
            },
        }
        i += 1;
    }
    Some(out)
}

fn narrow_u16(vs: &Vec<u64>) -> (out: Vec<u16>)
    requires
        forall|i: int| 0 <= i < vs@.len() ==> vs@[i] <= 0xFFFF,
    ensures
        out@ == vs@.map_values(|v: u64| v as u16),
{
    let mut out: Vec<u16> = Vec::new();
    let mut i: usize = 0;
    while i < vs.len()
        invariant
            i <= vs@.len(),
            out@.len() == i,
            forall|k: int| 0 <= k < vs@.len() ==> vs@[k] <= 0xFFFF,
            forall|k: int| 0 <= k < i ==> out@[k] == vs@[k] as u16,
        decreases vs@.len() - i,
    {
        out.push(vs[i] as u16);
        i += 1;
    }
    out
}

fn narrow_u32(vs: &Vec<u64>) -> (out: Vec<u32>)
    requires
        forall|i: int| 0 <= i < vs@.len() ==> vs@[i] <= 0xFFFF_FFFF,
    ensures
        out@ == vs@.map_values(|v: u64| v as u32),
{
    let mut out: Vec<u32> = Vec::new();
    let mut i: usize = 0;
    while i < vs.len()
        invariant
            i <= vs@.len(),
            out@.len() == i,
            forall|k: int| 0 <= k < vs@.len() ==> vs@[k] <= 0xFFFF_FFFF,
            forall|k: int| 0 <= k < i ==> out@[k] == vs@[k] as u32,
        decreases vs@.len() - i,
    {
        out.push(vs[i] as u32);
        i += 1;
    }
    out
}

fn narrow_i16(vs: &Vec<i64>) -> (out: Vec<i16>)
    requires
        forall|i: int| 0 <= i < vs@.len() ==> i16::MIN <= (#[trigger] vs@[i]) <= i16::MAX,
    ensures
        out@ == vs@.map_values(|v: i64| v as i16),
{
    let mut out: Vec<i16> = Vec::new();
    let mut i: usize = 0;
    while i < vs.len()
        invariant
            i <= vs@.len(),
            out@.len() == i,
            forall|k: int| 0 <= k < vs@.len() ==> i16::MIN <= (#[trigger] vs@[k]) <= i16::MAX,
            forall|k: int| 0 <= k < i ==> out@[k] == vs@[k] as i16,
        decreases vs@.len() - i,
    {
        out.push(vs[i] as i16);
        i += 1;
    }
    out
}

fn narrow_i32(vs: &Vec<i64>) -> (out: Vec<i32>)
    requires
        forall|i: int| 0 <= i < vs@.len() ==> i32::MIN <= (#[trigger] vs@[i]) <= i32::MAX,
    ensures
        out@ == vs@.map_values(|v: i64| v as i32),
{
    let mut out: Vec<i32> = Vec::new();
    let mut i: usize = 0;
    while i < vs.len()
        invariant
            i <= vs@.len(),
            out@.len() == i,
            forall|k: int| 0 <= k < vs@.len() ==> i32::MIN <= (#[trigger] vs@[k]) <= i32::MAX,
            forall|k: int| 0 <= k < i ==> out@[k] == vs@[k] as i32,
        decreases vs@.len() - i,
    {
        out.push(vs[i] as i32);
        i += 1;
    }
    out
}

/// Reads the bytes of a text as a value of kind `kind`.
pub fn value_from_text(kind: ValueKind, bytes: &[u8]) -> (r: Result<PrimitiveValue, CoerceError>)
    ensures
        match r {
            Ok(p) => spec_value_from_text(kind, bytes@) matches Ok(m) && m == p@ && p@.kind()
                == kind,
            Err(e) => spec_value_from_text(kind, bytes@) matches Err(f) && f == e,
        },
{
    match kind {
        ValueKind::Strings => Ok(PrimitiveValue::Strings(split_strings(bytes))),
        ValueKind::Text => Ok(PrimitiveValue::Text(trim_text(bytes))),
        ValueKind::U16 => {
            let parts = split_strings(bytes);
            match parse_all_unsigned(&parts, 0xFFFF) {
                Some(vs) => {
                    Ok(PrimitiveValue::U16(narrow_u16(&vs)))
                },
                None => Err(CoerceError::NotANumber),
            }
        },
        ValueKind::U32 => {
            let parts = split_strings(bytes);
            match parse_all_unsigned(&parts, 0xFFFF_FFFF) {
                Some(vs) => {
                    Ok(PrimitiveValue::U32(narrow_u32(&vs)))
                },
                None => Err(CoerceError::NotANumber),
            }
        },
        ValueKind::U64 => {
            let parts = split_strings(bytes);
            match parse_all_unsigned(&parts, u64::MAX) {
                Some(vs) => Ok(PrimitiveValue::U64(vs)),
                None => Err(CoerceError::NotANumber),
            }
        },
        ValueKind::I16 => {
            let parts = split_strings(bytes);
            match parse_all_integers(&parts, -0x8000, 0x7FFF) {
                Some(vs) => {
                    Ok(PrimitiveValue::I16(narrow_i16(&vs)))
                },
                None => Err(CoerceError::NotANumber),
            }
        },
        ValueKind::I32 => {
            let parts = split_strings(bytes);
            match parse_all_integers(&parts, -0x8000_0000, 0x7FFF_FFFF) {
                Some(vs) => {
                    Ok(PrimitiveValue::I32(narrow_i32(&vs)))
                },
                None => Err(CoerceError::NotANumber),
            }
        },
        ValueKind::I64 => {
            let parts = split_strings(bytes);
            match parse_all_integers(&parts, i64::MIN, i64::MAX) {
                Some(vs) => Ok(PrimitiveValue::I64(vs)),
                None => Err(CoerceError::NotANumber),
            }
        },
        _ => Err(CoerceError::Unsupported(kind)),
    }
}

/// Builds the element with tag `tag` that a text stands for.
///
/// On success the representation of the element is the one in the
/// dictionary and its value is of the kind of that representation. Each
/// error comes exactly where the tag or the text is as the error says.
pub fn element_from_text(dictionary: &Dictionary, ds: &DataSet, tag: Tag, text: &str) -> (r: Result<
    DataElement,
    CoerceError,
>)
    ensures
        match r {
            Ok(e) => spec_element_from_text(dictionary@, ds@, tag, text@) matches Ok(m) && m == e@
                && crate::element::spec_kind_error(e@) is None,
            Err(x) => spec_element_from_text(dictionary@, ds@, tag, text@) matches Err(y) && y
                == x,
        },
{
    let entry = match dictionary.lookup(tag, Dictionary::creator_of(ds, tag)) {
        Some(e) => e,
        None => {
            return Err(CoerceError::UnknownTag);
        },
    };
    let bytes = match string_to_bytes(text) {
        Some(b) => b,
        None => {
            return Err(CoerceError::NotInRepertoire);
        },
    };
    if bytes.len() == 0 {
        return Ok(DataElement { tag, vr: entry.vr, value: Value::Empty });
    }
    match value_from_text(entry.vr.value_kind(), bytes.as_slice()) {
        Err(e) => Err(e),
        Ok(p) => Ok(DataElement { tag, vr: entry.vr, value: Value::Primitive(p) }),
    }
}

/// Puts into `ds` the element with tag `tag` that a text stands for. On an
/// error the data set stays as it is.
pub fn put_text(ds: &mut DataSet, dictionary: &Dictionary, tag: Tag, text: &str) -> (r: Result<
    (),
    CoerceError,
>)
    ensures
        match spec_element_from_text(dictionary@, old(ds)@, tag, text@) {
            Ok(m) => r is Ok && final(ds)@ == crate::element::spec_put(old(ds)@, m),
            Err(y) => r == Err::<(), CoerceError>(y) && final(ds)@ == old(ds)@,
        },
{
    match element_from_text(dictionary, ds, tag, text) {
        Ok(e) => {
            ds.put(e);
            Ok(())
        },
        Err(x) => Err(x),
    }
}

} // verus!
