//! The in-memory object: a file meta table and the data set it announces,
//! and the layout of a whole file.

use crate::decode::decode_dataset_in;
use crate::decode::spec_decode_dataset;
use crate::decode::spec_flagged_dataset;
use crate::dictionary::get_by_name;
use crate::dictionary::find_name;
use crate::dictionary::Dictionary;
use crate::dictionary::DictionaryModel;
use crate::element::position_of;
use crate::element::spec_get;
use crate::element::spec_kind_error;
use crate::element::strictly_ordered;
use crate::element::spec_put;
use crate::element::spec_remove;
use crate::element::well_formed;
use crate::element::DataElement;
use crate::element::DataSet;
use crate::element::ElementModel;
use crate::encode::encode_dataset;
use crate::encode::spec_encode_dataset;
use crate::encode::LengthPolicy;
use crate::encode::LengthPolicyModel;
use crate::error::DecodeError;
use crate::error::DecodeFailure;
use crate::error::EncodeError;
use crate::meta::spec_encode_meta;
use crate::meta::spec_flagged_meta;
use crate::meta::spec_resolve_meta;
use crate::meta::FileMetaTable;
use crate::meta::MetaError;
use crate::meta::MetaFailure;
use crate::meta::MetaModel;
use crate::tag::Tag;
use crate::text::append;
use crate::transfer_syntax::TransferSyntaxModel;
use crate::transfer_syntax::TransferSyntaxRegistry;
use vstd::prelude::*;
use vstd::string::StringSliceAdditionalSpecFns;

verus! {

/// The number of bytes before the file meta group: the preamble of 128
/// bytes and the four letters DICM.
pub const PROLOGUE_LENGTH: usize = 132;

/// A DICOM object in memory: its file meta table and its data set.
#[derive(Debug)]
pub struct FileObject {
    pub meta: FileMetaTable,
    pub dataset: DataSet,
}

/// The mathematical model of an object.
pub ghost struct FileModel {
    pub meta: MetaModel,
    pub dataset: Seq<ElementModel>,
}

impl View for FileObject {
    type V = FileModel;

    open spec fn view(&self) -> FileModel {
        FileModel { meta: self.meta@, dataset: self.dataset@ }
    }
}

/// Why a file could not be decoded.
#[derive(Debug)]
pub enum FileError {
    /// The stream does not start with a preamble and the letters DICM.
    NotDicom,
    /// The file meta table could not be resolved.
    Meta(MetaError),
    /// The data set is stored deflated. The table comes with the error: what
    /// follows it in the stream is to be inflated and then decoded as a data
    /// set.
    Deflated(FileMetaTable),
    /// The data set could not be decoded.
    DataSet(DecodeError),
}

/// The mathematical model of a failure to decode a file.
pub ghost enum FileFailure {
    NotDicom,
    Meta(MetaFailure),
    Deflated(MetaModel),
    DataSet(DecodeFailure),
}

impl View for FileError {
    type V = FileFailure;

    open spec fn view(&self) -> FileFailure {
        match self {
            FileError::NotDicom => FileFailure::NotDicom,
            FileError::Meta(e) => FileFailure::Meta(e@),
            FileError::Deflated(t) => FileFailure::Deflated(t@),
            FileError::DataSet(e) => FileFailure::DataSet(e@),
        }
    }
}

/// Whether a stream starts as a DICOM file does: 128 bytes of preamble,
/// then the letters DICM.
pub open spec fn spec_has_magic(b: Seq<u8>) -> bool {
    b.len() >= 132 && b[128] == 0x44 && b[129] == 0x49 && b[130] == 0x43 && b[131] == 0x4D
}

/// The preamble and the letters DICM.
pub open spec fn prologue() -> Seq<u8> {
    Seq::new(128, |i: int| 0u8) + seq![0x44u8, 0x49u8, 0x43u8, 0x4Du8]
}

/// The object that a file holds: behind the prologue the file meta group,
/// and behind that the data set in the transfer syntax that the group
/// names.
pub open spec fn spec_decode_file(
    b: Seq<u8>,
    registry: Seq<TransferSyntaxModel>,
    d: DictionaryModel,
) -> Result<FileModel, FileFailure> {
    if !spec_has_magic(b) {
        Err(FileFailure::NotDicom)
    } else {
        match spec_resolve_meta(b, 132, registry, d) {
            Err(f) => Err(FileFailure::Meta(f)),
            Ok(m) => if m.transfer_syntax.deflated {
                Err(FileFailure::Deflated(m))
            } else {
                match spec_decode_dataset(
                    b,
                    m.end,
                    b.len() as int,
                    m.transfer_syntax.encoding(),
                    d,
                    Seq::empty(),
                    false,
                ) {
                    Err(f) => Err(FileFailure::DataSet(f)),
                    Ok((ds, end)) => Ok(FileModel { meta: m, dataset: ds }),
                }
            },
        }
    }
}

/// The tags to flag in a file that decodes: those of the elements of the
/// file meta group and of the data set, at any depth, whose declared length
/// is odd, in the order of the stream.
pub open spec fn spec_flagged_file(
    b: Seq<u8>,
    registry: Seq<TransferSyntaxModel>,
    d: DictionaryModel,
) -> Seq<Tag> {
    match spec_resolve_meta(b, 132, registry, d) {
        Err(f) => Seq::empty(),
        Ok(m) => spec_flagged_meta(b, 132, b.len() as int, d, Seq::empty()) + spec_flagged_dataset(
            b,
            m.end,
            b.len() as int,
            m.transfer_syntax.encoding(),
            d,
            Seq::empty(),
            false,
        ),
    }
}

/// The bytes of a file: the prologue, the file meta group, and the data set
/// in the transfer syntax of the table. For a deflated transfer syntax the
/// data set is laid out as it is before deflation.
pub open spec fn spec_encode_file(obj: FileModel, policy: LengthPolicyModel) -> Result<
    Seq<u8>,
    EncodeError,
> {
    match spec_encode_meta(obj.meta.elements) {
        Err(x) => Err(x),
        Ok(meta) => match spec_encode_dataset(
            obj.dataset,
            0,
            obj.meta.transfer_syntax.encoding(),
            policy,
            Seq::empty(),
        ) {
            Err(x) => Err(x),
            Ok(ds) => Ok(prologue() + meta + ds),
        },
    }
}

/// Whether the stream starts with a preamble and the letters DICM.
pub fn has_magic(bytes: &[u8]) -> (r: bool)
    ensures
        r == spec_has_magic(bytes@),
{
    bytes.len() >= PROLOGUE_LENGTH && bytes[128] == 0x44 && bytes[129] == 0x49 && bytes[130] == 0x43
        && bytes[131] == 0x4D
}

fn push_prologue(out: &mut Vec<u8>)
    requires
        old(out)@.len() == 0,
    ensures
        final(out)@ == prologue(),
{
    let mut i: usize = 0;
    while i < 128
        invariant
            i <= 128,
            out@.len() == i,
            forall|k: int| 0 <= k < i ==> out@[k] == 0u8,
        decreases 128 - i,
    {
        out.push(0);
        i += 1;
    }
    out.push(0x44);
    out.push(0x49);
    out.push(0x43);
    out.push(0x4D);
}

impl FileObject {
    /// Decodes a whole file.
    ///
    /// On success the object is the one that the file holds, and its data
    /// set is well formed. Each error comes exactly where the file is as the
    /// error says.
    pub fn decode(bytes: &[u8], registry: &TransferSyntaxRegistry, dictionary: &Dictionary) -> (r:
        Result<FileObject, FileError>)
        ensures
            match r {
                Ok(obj) => spec_decode_file(bytes@, registry@, dictionary@) matches Ok(m) && m
                    == obj@ && well_formed(obj.dataset@),
                Err(e) => spec_decode_file(bytes@, registry@, dictionary@) matches Err(f) && f
                    == e@,
            },
    {
        match FileObject::decode_flagged(bytes, registry, dictionary) {
            Ok((obj, _)) => Ok(obj),
            Err(e) => Err(e),
        }
    }

    /// Decodes a whole file and says which elements to flag.
    ///
    /// On success the object is the one that the file holds, its data set is
    /// well formed, and the tags returned with it are those of the elements
    /// of the table and of the data set, at any depth, whose declared length
    /// is odd: such a value lacks its padding and was read all the same. Each
    /// error comes exactly where the file is as the error says.
    pub fn decode_flagged(
        bytes: &[u8],
        registry: &TransferSyntaxRegistry,
        dictionary: &Dictionary,
    ) -> (r: Result<(FileObject, Vec<Tag>), FileError>)
        ensures
            match r {
                Ok((obj, flagged)) => {
                    &&& spec_decode_file(bytes@, registry@, dictionary@) matches Ok(m) && m == obj@
                    &&& well_formed(obj.dataset@)
                    &&& flagged@ == spec_flagged_file(bytes@, registry@, dictionary@)
                },
                Err(e) => spec_decode_file(bytes@, registry@, dictionary@) matches Err(f) && f
                    == e@,
            },
    {
        if !has_magic(bytes) {
            return Err(FileError::NotDicom);
        }
        let mut flagged: Vec<Tag> = Vec::new();
        let meta = match FileMetaTable::resolve_flagged_at(
            bytes,
            PROLOGUE_LENGTH,
            registry,
            dictionary,
            &mut flagged,
        ) {
            Ok(t) => t,
            Err(e) => {
                return Err(FileError::Meta(e));
            },
        };
        if meta.transfer_syntax.deflated {
            return Err(FileError::Deflated(meta));
        }
        let enc = meta.transfer_syntax.encoding();
        let ghost in_table = flagged@;
        match decode_dataset_in(bytes, meta.end, bytes.len(), enc, dictionary, false, &mut flagged) {
            Err(e) => Err(FileError::DataSet(e)),
            Ok((dataset, _)) => {
                assert(in_table =~= Seq::<Tag>::empty() + in_table);
                Ok((FileObject { meta, dataset }, flagged))
            },
        }
    }

    /// Encodes a whole file.
    ///
    /// On success the bytes are the prologue, the file meta group and the
    /// data set; the error is that of the first element that cannot be
    /// written.
    pub fn encode(&self, policy: &LengthPolicy) -> (r: Result<Vec<u8>, EncodeError>)
        ensures
            match r {
                Ok(v) => spec_encode_file(self@, policy@) matches Ok(s) && s == v@,
                Err(x) => spec_encode_file(self@, policy@) matches Err(y) && y == x,
            },
    {
        let meta = match self.meta.encode() {
            Ok(v) => v,
            Err(x) => {
                return Err(x);
            },
        };
        let enc = self.meta.transfer_syntax.encoding();
        let ds = match encode_dataset(&self.dataset, enc, policy) {
            Ok(v) => v,
            Err(x) => {
                return Err(x);
            },
        };
        let mut out: Vec<u8> = Vec::new();
        push_prologue(&mut out);
        append(&mut out, meta.as_slice());
        append(&mut out, ds.as_slice());
        Ok(out)
    }

    /// The element of the data set with tag `tag`.
    pub fn get(&self, tag: Tag) -> (r: Option<&DataElement>)
        ensures
            match r {
                Some(e) => spec_get(self@.dataset, tag) == Some(e@) && e.tag == tag,
                None => spec_get(self@.dataset, tag) is None,
            },
    {
        self.dataset.get(tag)
    }

    /// The element of the data set whose tag the dictionary lists under
    /// `name`.
    pub fn get_by_name(&self, dictionary: &Dictionary, name: &str) -> (r: Option<&DataElement>)
        ensures
            match find_name(dictionary@.entries, name.spec_bytes(), 0) {
                Some(entry) => match r {
                    Some(e) => position_of(self@.dataset, entry.tag) matches Some(i) && e@
                        == self@.dataset[i],
                    None => position_of(self@.dataset, entry.tag) is None,
                },
                None => r is None,
            },
    {
        get_by_name(&self.dataset, dictionary, name)
    }

    /// Puts an element into the data set; the table is left as it is.
    ///
    /// The element is checked first: one whose value is not of the kind that
    /// its representation prescribes is refused with `VrMismatch`, and the
    /// object stays as it is.
    pub fn put(&mut self, e: DataElement) -> (r: Result<(), EncodeError>)
        ensures
            match spec_kind_error(e@) {
                Some(x) => r == Err::<(), EncodeError>(x) && final(self)@ == old(self)@,
                None => r is Ok && final(self)@.dataset == spec_put(old(self)@.dataset, e@),
            },
            final(self).meta == old(self).meta,
            strictly_ordered(old(self)@.dataset) ==> strictly_ordered(final(self)@.dataset),
    {
        self.dataset.put_checked(e)
    }

    /// Removes the element with tag `tag` from the data set and returns it.
    pub fn remove(&mut self, tag: Tag) -> (r: Option<DataElement>)
        ensures
            final(self)@.dataset == spec_remove(old(self)@.dataset, tag),
            final(self).meta == old(self).meta,
            match r {
                Some(e) => spec_get(old(self)@.dataset, tag) == Some(e@),
                None => spec_get(old(self)@.dataset, tag) is None,
            },
            well_formed(old(self)@.dataset) ==> well_formed(final(self)@.dataset),
    {
        self.dataset.remove(tag)
    }
}

} // verus!
