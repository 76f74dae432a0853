//! The errors of decoding and encoding.

use crate::tag::Tag;
use crate::vr::ValueKind;
use vstd::prelude::*;

verus! {

/// Why a stream could not be decoded.
#[derive(Clone, Copy, Debug, PartialEq, Eq, Structural)]
pub enum DecodeErrorKind {
    /// The stream holds fewer bytes than a header or a declared length asks
    /// for.
    UnexpectedEof,
    /// A length that does not go with the representation: the undefined
    /// length on one that must have a length, or a length that is no
    /// multiple of the size of one value.
    InvalidElementLength,
    /// The stream ended where the delimiter of an item or of a sequence of
    /// undefined length was still to come.
    MissingDelimiter,
    /// An item or delimiter tag where an element was expected, or another
    /// tag where an item was expected.
    UnexpectedTag,
}

/// A decoding error, with the offset in the stream at which it was found.
#[derive(Clone, Copy, Debug, PartialEq, Eq, Structural)]
pub struct DecodeError {
    pub kind: DecodeErrorKind,
    pub offset: usize,
}

/// The mathematical model of a decoding error.
pub ghost struct DecodeFailure {
    pub kind: DecodeErrorKind,
    pub offset: int,
}

impl View for DecodeError {
    type V = DecodeFailure;

    open spec fn view(&self) -> DecodeFailure {
        DecodeFailure { kind: self.kind, offset: self.offset as int }
    }
}

/// Why a data set could not be encoded.
#[derive(Clone, Copy, Debug, PartialEq, Eq, Structural)]
pub enum EncodeError {
    /// The value of the element with tag `tag` is not of the kind that its
    /// representation prescribes.
    VrMismatch { tag: Tag, expected: ValueKind, actual: ValueKind },
    /// The value of the element with tag `tag` is longer than its length
    /// field can say.
    LengthOverflow { tag: Tag },
}

/// The error of kind `kind` at `offset`.
pub fn decode_error(kind: DecodeErrorKind, offset: usize) -> (e: DecodeError)
    ensures
        e@ == (DecodeFailure { kind, offset: offset as int }),
{
    DecodeError { kind, offset }
}

} // verus!
