//! Reading and writing DICOM data sets: the value representations, the
//! transfer syntaxes, the element decoder and encoder, the tag-keyed object
//! model, the data dictionary and the file meta table.
//!
//! Every function is verified against a contract stated over mathematical
//! models of the data; `laws` holds what is proved of the decoder and the
//! encoder together. The byte-order primitives and the text conversions
//! are taken from the `byteorder` and `encoding` crates.

pub mod bytes;
pub mod coerce;
pub mod decode;
pub mod dictionary;
pub mod dump;
pub mod element;
pub mod encode;
pub mod equality;
pub mod error;
pub mod fromimage;
pub mod laws;
pub mod meta;
pub mod object;
pub mod parse;
pub mod pixel;
pub mod tag;
pub mod text;
pub mod transfer_syntax;
pub mod value;
pub mod vr;

pub use crate::decode::decode_dataset;
pub use crate::dictionary::Dictionary;
pub use crate::element::DataElement;
pub use crate::element::DataSet;
pub use crate::element::Value;
pub use crate::encode::encode_dataset;
pub use crate::encode::LengthPolicy;
pub use crate::error::DecodeError;
pub use crate::error::EncodeError;
pub use crate::meta::FileMetaTable;
pub use crate::object::FileObject;
pub use crate::tag::Tag;
pub use crate::transfer_syntax::Encoding;
pub use crate::transfer_syntax::TransferSyntax;
pub use crate::transfer_syntax::TransferSyntaxRegistry;
pub use crate::value::PrimitiveValue;
pub use crate::vr::VR;
