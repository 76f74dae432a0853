//! Access to pixel data: as it is stored, or handed to a codec that the
//! caller runs.

use crate::element::spec_get;
use crate::element::DataSet;
use crate::element::ElementModel;
use crate::element::Value;
use crate::element::ValueModel;
use crate::tag::spec_pixel_data_tag;
use crate::tag::Tag;
use crate::text::bytes_equal;
use crate::transfer_syntax::TransferSyntax;
use crate::transfer_syntax::TransferSyntaxModel;
use crate::value::encode_primitive;
use crate::value::spec_encode_primitive;
use vstd::prelude::*;

verus! {

/// The transfer syntaxes for which the caller has a codec. The codecs
/// themselves stay with the caller: the library says which one to run.
#[derive(Debug)]
pub struct CodecRegistry {
    /// The identifier of the transfer syntax of each codec.
    pub uids: Vec<Vec<u8>>,
}

/// How the pixel data of a data set can be had.
#[derive(Debug, PartialEq, Eq)]
pub enum PixelAccess {
    /// The pixel bytes as they are stored.
    Native(Vec<u8>),
    /// The pixel data stands in fragments: the codec with this number in the
    /// registry is to decompress them.
    Encapsulated { codec: usize },
}

/// The mathematical model of `PixelAccess`.
pub ghost enum PixelAccessModel {
    Native(Seq<u8>),
    Encapsulated { codec: int },
}

impl View for PixelAccess {
    type V = PixelAccessModel;

    open spec fn view(&self) -> PixelAccessModel {
        match self {
            PixelAccess::Native(v) => PixelAccessModel::Native(v@),
            PixelAccess::Encapsulated { codec } => PixelAccessModel::Encapsulated {
                codec: *codec as int,
            },
        }
    }
}

/// Why pixel data could not be had.
#[derive(Clone, Copy, Debug, PartialEq, Eq, Structural)]
pub enum PixelAccessError {
    /// The data set holds no Pixel Data element.
    NoPixelData,
    /// The Pixel Data element holds items, not pixel data.
    NotPixelData,
    /// The pixel data stands in fragments and no codec is registered for the
    /// transfer syntax.
    CodecUnavailable,
    /// The codec failed.
    CodecFailed,
}

/// What a codec that the caller ran gave back.
#[derive(Debug)]
pub enum CodecOutcome {
    Decoded(Vec<u8>),
    Failed,
}

/// The position of the first codec for the transfer syntax `uid` at or
/// after `from`.
pub open spec fn find_codec(uids: Seq<Seq<u8>>, uid: Seq<u8>, from: int) -> Option<int>
    decreases uids.len() - from,
{
    if from < 0 || from >= uids.len() {
        None
    } else if uids[from] == uid {
        Some(from)
    } else {
        find_codec(uids, uid, from + 1)
    }
}

/// How the pixel data of `ds` can be had under the transfer syntax `ts`,
/// with codecs for the transfer syntaxes `codecs`.
///
/// A primitive value is given as the bytes that store it; an element
/// without a value gives no bytes. Fragments are handed to the codec that is
/// registered for the transfer syntax, and without one the access fails.
pub open spec fn spec_pixel_data(
    ds: Seq<ElementModel>,
    ts: TransferSyntaxModel,
    codecs: Seq<Seq<u8>>,
) -> Result<PixelAccessModel, PixelAccessError> {
    match spec_get(ds, spec_pixel_data_tag()) {
        None => Err(PixelAccessError::NoPixelData),
        Some(e) => match e.value {
            ValueModel::Empty => Ok(PixelAccessModel::Native(Seq::empty())),
            ValueModel::Primitive(p) => Ok(
                PixelAccessModel::Native(spec_encode_primitive(p, ts.big_endian, e.vr)),
            ),
            ValueModel::Sequence(_) => Err(PixelAccessError::NotPixelData),
            ValueModel::PixelSequence { .. } => match find_codec(codecs, ts.uid, 0) {
                Some(k) => Ok(PixelAccessModel::Encapsulated { codec: k }),
                None => Err(PixelAccessError::CodecUnavailable),
            },
        },
    }
}

impl CodecRegistry {
    /// A registry without codecs.
    pub fn new() -> (r: CodecRegistry)
        ensures
            r.uids@.len() == 0,
    {
        CodecRegistry { uids: Vec::new() }
    }

    /// Notes that the caller has a codec for the transfer syntax `uid`, and
    /// returns its number.
    pub fn register(&mut self, uid: Vec<u8>) -> (n: usize)
        ensures
            final(self).uids@ == old(self).uids@.push(uid),
            n == old(self).uids@.len(),
    {
        let n = self.uids.len();
        self.uids.push(uid);
        n
    }

    /// The number of the first codec for the transfer syntax `uid`.
    pub fn find(&self, uid: &[u8]) -> (r: Option<usize>)
        ensures
            match r {
                Some(k) => find_codec(crate::text::views(self.uids@), uid@, 0) == Some(k as int)
                    && k < self.uids@.len(),
                None => find_codec(crate::text::views(self.uids@), uid@, 0) is None,
            },
    {
        let mut i: usize = 0;
        while i < self.uids.len()
            invariant
                i <= self.uids@.len(),
                find_codec(crate::text::views(self.uids@), uid@, 0) == find_codec(
                    crate::text::views(self.uids@),
                    uid@,
                    i as int,
                ),
            decreases self.uids@.len() - i,
        {
            if bytes_equal(self.uids[i].as_slice(), uid) {
                return Some(i);
            }
            i += 1;
        }
        None
    }
}

/// Says how the pixel data of `ds` can be had. Nothing is decompressed
/// here: where the answer is `Encapsulated`, the caller runs the codec on
/// the fragments of the Pixel Data element and hands the outcome to
/// `finish_pixel_access`.
pub fn pixel_data(ds: &DataSet, ts: &TransferSyntax, codecs: &CodecRegistry) -> (r: Result<
    PixelAccess,
    PixelAccessError,
>)
    ensures
        match r {
            Ok(a) => spec_pixel_data(ds@, ts@, crate::text::views(codecs.uids@)) matches Ok(m)
                && m == a@,
            Err(e) => spec_pixel_data(ds@, ts@, crate::text::views(codecs.uids@)) matches Err(f)
                && f == e,
        },
{
    match ds.get(Tag::pixel_data()) {
        None => Err(PixelAccessError::NoPixelData),
        Some(e) => match &e.value {
            Value::Empty => Ok(PixelAccess::Native(Vec::new())),
            Value::Primitive(p) => Ok(
                PixelAccess::Native(encode_primitive(p, ts.big_endian, e.vr)),
            ),
            Value::Sequence(_) => Err(PixelAccessError::NotPixelData),
            Value::PixelSequence(_) => match codecs.find(ts.uid.as_slice()) {
                Some(k) => Ok(PixelAccess::Encapsulated { codec: k }),
                None => Err(PixelAccessError::CodecUnavailable),
            },
        },
    }
}

/// Turns what a codec gave back into the result of the pixel access.
pub fn finish_pixel_access(outcome: CodecOutcome) -> (r: Result<Vec<u8>, PixelAccessError>)
    ensures
        match outcome {
            CodecOutcome::Decoded(v) => r == Ok::<Vec<u8>, PixelAccessError>(v),
            CodecOutcome::Failed => r == Err::<Vec<u8>, PixelAccessError>(
                PixelAccessError::CodecFailed,
            ),
        },
{
    match outcome {
        CodecOutcome::Decoded(v) => Ok(v),
        CodecOutcome::Failed => Err(PixelAccessError::CodecFailed),
    }
}

} // verus!
