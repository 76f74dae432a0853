//! The file meta table: the group of elements, always in Explicit VR Little
//! Endian, that says how the data set behind it is encoded.

use crate::bytes::push_u32;
use crate::bytes::u32_bytes;
use crate::decode::decode_element;
use crate::decode::read_tag;
use crate::decode::spec_decode_element;
use crate::decode::spec_flagged_element;
use crate::decode::tag_at;
use crate::decode::ElementHeader;
use crate::dictionary::Dictionary;
use crate::dictionary::DictionaryModel;
use crate::element::spec_first_string;
use crate::element::spec_put;
use crate::element::well_formed;
use crate::element::DataElement;
use crate::element::DataSet;
use crate::element::ElementModel;
use crate::element::Value;
use crate::element::ValueModel;
use crate::encode::encode_without;
use crate::encode::push_header;
use crate::encode::spec_encode_without;
use crate::encode::spec_encode_header;
use crate::encode::LengthPolicy;
use crate::encode::LengthPolicyModel;
use crate::error::DecodeError;
use crate::error::DecodeErrorKind;
use crate::error::DecodeFailure;
use crate::error::EncodeError;
use crate::tag::Tag;
use crate::text::append;
use crate::text::copy_range;
use crate::text::views;
use crate::transfer_syntax::find_syntax;
use crate::transfer_syntax::Encoding;
use crate::transfer_syntax::TransferSyntax;
use crate::transfer_syntax::TransferSyntaxModel;
use crate::transfer_syntax::TransferSyntaxRegistry;
use crate::value::PrimitiveModel;
use crate::value::PrimitiveValue;
use crate::vr::VR;
use vstd::prelude::*;

verus! {

/// File Meta Information Group Length.
pub open spec fn group_length_tag() -> Tag {
    Tag { group: 0x0002, element: 0x0000 }
}

/// File Meta Information Version.
pub open spec fn version_tag() -> Tag {
    Tag { group: 0x0002, element: 0x0001 }
}

/// Media Storage SOP Class UID.
pub open spec fn sop_class_tag() -> Tag {
    Tag { group: 0x0002, element: 0x0002 }
}

/// Media Storage SOP Instance UID.
pub open spec fn sop_instance_tag() -> Tag {
    Tag { group: 0x0002, element: 0x0003 }
}

/// Transfer Syntax UID.
pub open spec fn transfer_syntax_tag() -> Tag {
    Tag { group: 0x0002, element: 0x0010 }
}

/// Implementation Class UID.
pub open spec fn implementation_class_tag() -> Tag {
    Tag { group: 0x0002, element: 0x0012 }
}

/// The encoding of the file meta group, whatever that of the data set.
pub open spec fn meta_encoding() -> Encoding {
    Encoding { explicit_vr: true, big_endian: false, encapsulated: false }
}

/// The length policy of the file meta group: measured lengths.
pub open spec fn meta_policy() -> LengthPolicyModel {
    LengthPolicyModel { undefined_by_default: false, exceptions: Seq::empty() }
}

/// A resolved file meta table.
#[derive(Debug)]
pub struct FileMetaTable {
    /// The descriptor of the transfer syntax of the data set.
    pub transfer_syntax: TransferSyntax,
    pub media_storage_sop_class_uid: Vec<u8>,
    pub media_storage_sop_instance_uid: Vec<u8>,
    /// Empty where the table names no implementation class.
    pub implementation_class_uid: Vec<u8>,
    /// All the elements of the group.
    pub elements: DataSet,
    /// The position in the stream behind the group: where the data set
    /// starts.
    pub end: usize,
}

/// The mathematical model of a resolved file meta table.
pub ghost struct MetaModel {
    pub transfer_syntax: TransferSyntaxModel,
    pub media_storage_sop_class_uid: Seq<u8>,
    pub media_storage_sop_instance_uid: Seq<u8>,
    pub implementation_class_uid: Seq<u8>,
    pub elements: Seq<ElementModel>,
    pub end: int,
}

impl View for FileMetaTable {
    type V = MetaModel;

    open spec fn view(&self) -> MetaModel {
        MetaModel {
            transfer_syntax: self.transfer_syntax@,
            media_storage_sop_class_uid: self.media_storage_sop_class_uid@,
            media_storage_sop_instance_uid: self.media_storage_sop_instance_uid@,
            implementation_class_uid: self.implementation_class_uid@,
            elements: self.elements@,
            end: self.end as int,
        }
    }
}

/// Why a file meta table could not be resolved.
#[derive(Debug)]
pub enum MetaError {
    /// The group could not be decoded.
    Malformed(DecodeError),
    /// The group lacks the element with this tag.
    MissingRequiredMetaElement(Tag),
    /// No registered transfer syntax carries the identifier that the group
    /// names. The elements of the group come with the error, so that they
    /// can still be read.
    UnsupportedTransferSyntax { uid: Vec<u8>, elements: DataSet },
}

/// The mathematical model of a failure to resolve.
pub ghost enum MetaFailure {
    Malformed(DecodeFailure),
    MissingRequiredMetaElement(Tag),
    UnsupportedTransferSyntax { uid: Seq<u8>, elements: Seq<ElementModel> },
}

impl View for MetaError {
    type V = MetaFailure;

    open spec fn view(&self) -> MetaFailure {
        match self {
            MetaError::Malformed(e) => MetaFailure::Malformed(e@),
            MetaError::MissingRequiredMetaElement(t) => MetaFailure::MissingRequiredMetaElement(*t),
            MetaError::UnsupportedTransferSyntax { uid, elements } =>
                MetaFailure::UnsupportedTransferSyntax { uid: uid@, elements: elements@ },
        }
    }
}

/// The file meta table of a stream, before and after it is resolved.
#[derive(Debug)]
pub enum FileMeta {
    /// The bytes of the stream from the start of the group on; nothing was
    /// looked at.
    Unparsed(Vec<u8>),
    /// The transfer syntax is known and the required identifiers are there.
    Resolved(FileMetaTable),
}

/// The elements of the file meta group from `pos` on, put into `acc`, and
/// the position behind the group: the group goes on while the next tag is
/// of group 0002.
pub open spec fn spec_decode_meta(
    b: Seq<u8>,
    pos: int,
    end: int,
    d: DictionaryModel,
    acc: Seq<ElementModel>,
) -> Result<(Seq<ElementModel>, int), DecodeFailure>
    decreases end - pos,
{
    if pos + 4 > end || tag_at(b, pos, false).group != 0x0002 {
        Ok((acc, pos))
    } else {
        match spec_decode_element(b, pos, end, meta_encoding(), d, acc) {
            Err(f) => Err(f),
            Ok((e, next)) => if next <= pos || next > end {
                Err(DecodeFailure { kind: DecodeErrorKind::UnexpectedEof, offset: pos })
            } else {
                spec_decode_meta(b, next, end, d, spec_put(acc, e))
            },
        }
    }
}

/// The tags to flag in the file meta group that is read from `pos` on into
/// `acc`: those of the elements, at any depth, whose declared length is
/// odd, in the order of the stream.
pub open spec fn spec_flagged_meta(
    b: Seq<u8>,
    pos: int,
    end: int,
    d: DictionaryModel,
    acc: Seq<ElementModel>,
) -> Seq<Tag>
    decreases end - pos,
{
    if pos + 4 > end || tag_at(b, pos, false).group != 0x0002 {
        Seq::empty()
    } else {
        match spec_decode_element(b, pos, end, meta_encoding(), d, acc) {
            Err(f) => Seq::empty(),
            Ok((e, next)) => if next <= pos || next > end {
                Seq::empty()
            } else {
                spec_flagged_element(b, pos, end, meta_encoding(), d, acc) + spec_flagged_meta(
                    b,
                    next,
                    end,
                    d,
                    spec_put(acc, e),
                )
            },
        }
    }
}

/// The table that the file meta group at `pos` resolves to.
///
/// It fails with `MissingRequiredMetaElement` where the group names no
/// transfer syntax, no media storage SOP class or no media storage SOP
/// instance (the first of these that is missing is reported), and with
/// `UnsupportedTransferSyntax` where the registry does not hold the
/// transfer syntax that it names.
pub open spec fn spec_resolve_meta(
    b: Seq<u8>,
    pos: int,
    registry: Seq<TransferSyntaxModel>,
    d: DictionaryModel,
) -> Result<MetaModel, MetaFailure> {
    match spec_decode_meta(b, pos, b.len() as int, d, Seq::empty()) {
        Err(f) => Err(MetaFailure::Malformed(f)),
        Ok((fields, end)) => match spec_first_string(fields, transfer_syntax_tag()) {
            None => Err(MetaFailure::MissingRequiredMetaElement(transfer_syntax_tag())),
            Some(ts) => match spec_first_string(fields, sop_class_tag()) {
                None => Err(MetaFailure::MissingRequiredMetaElement(sop_class_tag())),
                Some(class) => match spec_first_string(fields, sop_instance_tag()) {
                    None => Err(MetaFailure::MissingRequiredMetaElement(sop_instance_tag())),
                    Some(instance) => match find_syntax(registry, ts, 0) {
                        None => Err(
                            MetaFailure::UnsupportedTransferSyntax { uid: ts, elements: fields },
                        ),
                        Some(k) => Ok(
                            MetaModel {
                                transfer_syntax: registry[k],
                                media_storage_sop_class_uid: class,
                                media_storage_sop_instance_uid: instance,
                                implementation_class_uid: match spec_first_string(
                                    fields,
                                    implementation_class_tag(),
                                ) {
                                    Some(x) => x,
                                    None => Seq::empty(),
                                },
                                elements: fields,
                                end,
                            },
                        ),
                    },
                },
            },
        },
    }
}

/// The bytes of a file meta group: the group length, which says how many
/// bytes follow it in the group, then the elements of the table other than
/// the group length.
pub open spec fn spec_encode_meta(elements: Seq<ElementModel>) -> Result<Seq<u8>, EncodeError> {
    match spec_encode_without(
        elements,
        group_length_tag(),
        0,
        meta_encoding(),
        meta_policy(),
        Seq::empty(),
    ) {
        Err(x) => Err(x),
        Ok(rest) => if rest.len() > 0xFFFF_FFFF {
            Err(EncodeError::LengthOverflow { tag: group_length_tag() })
        } else {
            Ok(
                spec_encode_header(
                    ElementHeader { tag: group_length_tag(), vr: VR::UL, len: 4 },
                    meta_encoding(),
                ) + u32_bytes(rest.len() as u32, false) + rest,
            )
        },
    }
}

fn copy_of(s: &[u8]) -> (v: Vec<u8>)
    ensures
        v@ == s@,
{
    let v = copy_range(s, 0, s.len());
    v
}

/// An element that holds one unique identifier.
fn uid_element(tag: Tag, uid: &[u8]) -> (e: DataElement)
    ensures
        e@ == (ElementModel {
            tag,
            vr: VR::UI,
            value: ValueModel::Primitive(PrimitiveModel::Strings(seq![uid@])),
        }),
{
    let mut parts: Vec<Vec<u8>> = Vec::new();
    parts.push(copy_of(uid));
    assert(views(parts@) =~= seq![uid@]);
    DataElement { tag, vr: VR::UI, value: Value::Primitive(PrimitiveValue::Strings(parts)) }
}

/// The elements of a table that is built from its identifiers: the
/// version, the two media storage identifiers, the transfer syntax and the
/// implementation class.
pub open spec fn built_elements(
    transfer_syntax_uid: Seq<u8>,
    sop_class_uid: Seq<u8>,
    sop_instance_uid: Seq<u8>,
    implementation_class_uid: Seq<u8>,
) -> Seq<ElementModel> {
    seq![
        ElementModel {
            tag: version_tag(),
            vr: VR::OB,
            value: ValueModel::Primitive(PrimitiveModel::Bytes(seq![0u8, 1u8])),
        },
        ElementModel {
            tag: sop_class_tag(),
            vr: VR::UI,
            value: ValueModel::Primitive(PrimitiveModel::Strings(seq![sop_class_uid])),
        },
        ElementModel {
            tag: sop_instance_tag(),
            vr: VR::UI,
            value: ValueModel::Primitive(PrimitiveModel::Strings(seq![sop_instance_uid])),
        },
        ElementModel {
            tag: transfer_syntax_tag(),
            vr: VR::UI,
            value: ValueModel::Primitive(PrimitiveModel::Strings(seq![transfer_syntax_uid])),
        },
        ElementModel {
            tag: implementation_class_tag(),
            vr: VR::UI,
            value: ValueModel::Primitive(PrimitiveModel::Strings(seq![implementation_class_uid])),
        },
    ]
}

/// Reads the elements of the file meta group that starts at `pos`.
pub fn decode_meta_fields(
    bytes: &[u8],
    pos: usize,
    dictionary: &Dictionary,
    flagged: &mut Vec<Tag>,
) -> (r: Result<(DataSet, usize), DecodeError>)
    requires
        pos <= bytes@.len(),
    ensures
        match r {
            Ok((ds, end)) => spec_decode_meta(
                bytes@,
                pos as int,
                bytes@.len() as int,
                dictionary@,
                Seq::empty(),
            ) matches Ok(v) && v.0 == ds@ && v.1 == end && pos <= end <= bytes@.len()
                && well_formed(ds@) && final(flagged)@ == old(flagged)@ + spec_flagged_meta(
                bytes@,
                pos as int,
                bytes@.len() as int,
                dictionary@,
                Seq::empty(),
            ),
            Err(e) => spec_decode_meta(
                bytes@,
                pos as int,
                bytes@.len() as int,
                dictionary@,
                Seq::empty(),
            ) matches Err(f) && f == e@,
        },
{
    let end = bytes.len();
    let enc = Encoding { explicit_vr: true, big_endian: false, encapsulated: false };
    let mut ds = DataSet::new();
    let mut p = pos;
    loop
        invariant
            pos <= p <= end,
            end == bytes@.len(),
            enc == meta_encoding(),
            spec_decode_meta(bytes@, pos as int, end as int, dictionary@, Seq::empty())
                == spec_decode_meta(bytes@, p as int, end as int, dictionary@, ds@),
            well_formed(ds@),
            old(flagged)@ + spec_flagged_meta(
                bytes@,
                pos as int,
                end as int,
                dictionary@,
                Seq::empty(),
            ) == flagged@ + spec_flagged_meta(bytes@, p as int, end as int, dictionary@, ds@),
        decreases end - p,
    {
        assert(flagged@ + Seq::<Tag>::empty() =~= flagged@);
        if end - p < 4 {
            return Ok((ds, p));
        }
        let tag = read_tag(bytes, p, false);
        if tag.group != 0x0002 {
            return Ok((ds, p));
        }
        let ghost before_flags = flagged@;
        let ghost rest_here = spec_flagged_meta(bytes@, p as int, end as int, dictionary@, ds@);
        match decode_element(bytes, p, end, enc, dictionary, &ds, flagged) {
            Err(e) => {
                return Err(e);
            },
            Ok((e, next)) => {
                ds.put(e);
                proof {
                    let rest_next = spec_flagged_meta(
                        bytes@,
                        next as int,
                        end as int,
                        dictionary@,
                        ds@,
                    );
                    assert(before_flags + rest_here =~= flagged@ + rest_next);
                }
                p = next;
            },
        }
    }
}

impl FileMetaTable {
    /// Resolves the file meta group that starts at `pos` of `bytes`.
    ///
    /// On success the table is the one that the group resolves to; each
    /// error comes exactly where the group is as the error says.
    pub fn resolve_at(
        bytes: &[u8],
        pos: usize,
        registry: &TransferSyntaxRegistry,
        dictionary: &Dictionary,
    ) -> (r: Result<FileMetaTable, MetaError>)
        requires
            pos <= bytes@.len(),
        ensures
            match r {
                Ok(t) => spec_resolve_meta(bytes@, pos as int, registry@, dictionary@) matches Ok(
                    m,
                ) && m == t@ && pos <= t.end <= bytes@.len() && well_formed(t.elements@),
                Err(e) => spec_resolve_meta(
                    bytes@,
                    pos as int,
                    registry@,
                    dictionary@,
                ) matches Err(f) && f == e@,
            },
    {
        let mut flagged: Vec<Tag> = Vec::new();
        FileMetaTable::resolve_flagged_at(bytes, pos, registry, dictionary, &mut flagged)
    }

    /// Resolves the file meta group that starts at `pos` of `bytes`, and
    /// adds to `flagged` the tags of its elements whose declared length is
    /// odd.
    ///
    /// On success the table is the one that the group resolves to; each
    /// error comes exactly where the group is as the error says.
    pub fn resolve_flagged_at(
        bytes: &[u8],
        pos: usize,
        registry: &TransferSyntaxRegistry,
        dictionary: &Dictionary,
        flagged: &mut Vec<Tag>,
    ) -> (r: Result<FileMetaTable, MetaError>)
        requires
            pos <= bytes@.len(),
        ensures
            match r {
                Ok(t) => {
                    &&& spec_resolve_meta(bytes@, pos as int, registry@, dictionary@) matches Ok(m)
                        && m == t@
                    &&& pos <= t.end <= bytes@.len()
                    &&& well_formed(t.elements@)
                    &&& final(flagged)@ == old(flagged)@ + spec_flagged_meta(
                        bytes@,
                        pos as int,
                        bytes@.len() as int,
                        dictionary@,
                        Seq::empty(),
                    )
                },
                Err(e) => spec_resolve_meta(
                    bytes@,
                    pos as int,
                    registry@,
                    dictionary@,
                ) matches Err(f) && f == e@,
            },
    {
        let (fields, end) = match decode_meta_fields(bytes, pos, dictionary, flagged) {
            Ok(x) => x,
            Err(e) => {
                return Err(MetaError::Malformed(e));
            },
        };
        let ts_tag = Tag { group: 0x0002, element: 0x0010 };
        let class_tag = Tag { group: 0x0002, element: 0x0002 };
        let instance_tag = Tag { group: 0x0002, element: 0x0003 };
        let implementation_tag = Tag { group: 0x0002, element: 0x0012 };
        let ts_uid = match fields.first_string(ts_tag) {
            Some(s) => copy_of(s),
            None => {
                return Err(MetaError::MissingRequiredMetaElement(ts_tag));
            },
        };
        let class_uid = match fields.first_string(class_tag) {
            Some(s) => copy_of(s),
            None => {
                return Err(MetaError::MissingRequiredMetaElement(class_tag));
            },
        };
        let instance_uid = match fields.first_string(instance_tag) {
            Some(s) => copy_of(s),
            None => {
                return Err(MetaError::MissingRequiredMetaElement(instance_tag));
            },
        };
        let implementation_uid = match fields.first_string(implementation_tag) {
            Some(s) => copy_of(s),
            None => Vec::new(),
        };
        match registry.resolve_bytes(ts_uid.as_slice()) {
            Err(_) => Err(MetaError::UnsupportedTransferSyntax { uid: ts_uid, elements: fields }),
            Ok(ts) => Ok(
                FileMetaTable {
                    transfer_syntax: ts.duplicate(),
                    media_storage_sop_class_uid: class_uid,
                    media_storage_sop_instance_uid: instance_uid,
                    implementation_class_uid: implementation_uid,
                    elements: fields,
                    end,
                },
            ),
        }
    }

    /// Builds a table from its identifiers, for a data set that is to be
    /// written.
    pub fn build(
        transfer_syntax: &TransferSyntax,
        sop_class_uid: &[u8],
        sop_instance_uid: &[u8],
        implementation_class_uid: &[u8],
    ) -> (t: FileMetaTable)
        ensures
            t@ == (MetaModel {
                transfer_syntax: transfer_syntax@,
                media_storage_sop_class_uid: sop_class_uid@,
                media_storage_sop_instance_uid: sop_instance_uid@,
                implementation_class_uid: implementation_class_uid@,
                elements: built_elements(
                    transfer_syntax.uid@,
                    sop_class_uid@,
                    sop_instance_uid@,
                    implementation_class_uid@,
                ),
                end: 0,
            }),
    {
        let mut version: Vec<u8> = Vec::new();
        version.push(0);
        version.push(1);
        assert(version@ =~= seq![0u8, 1u8]);
        let mut elements: Vec<DataElement> = Vec::new();
        elements.push(
            DataElement {
                tag: Tag { group: 0x0002, element: 0x0001 },
                vr: VR::OB,
                value: Value::Primitive(PrimitiveValue::Bytes(version)),
            },
        );
        elements.push(uid_element(Tag { group: 0x0002, element: 0x0002 }, sop_class_uid));
        elements.push(uid_element(Tag { group: 0x0002, element: 0x0003 }, sop_instance_uid));
        elements.push(
            uid_element(Tag { group: 0x0002, element: 0x0010 }, transfer_syntax.uid.as_slice()),
        );
        elements.push(
            uid_element(Tag { group: 0x0002, element: 0x0012 }, implementation_class_uid),
        );
        let ds = DataSet { elements };
        assert(ds@ =~= built_elements(
            transfer_syntax.uid@,
            sop_class_uid@,
            sop_instance_uid@,
            implementation_class_uid@,
        ));
        FileMetaTable {
            transfer_syntax: transfer_syntax.duplicate(),
            media_storage_sop_class_uid: copy_of(sop_class_uid),
            media_storage_sop_instance_uid: copy_of(sop_instance_uid),
            implementation_class_uid: copy_of(implementation_class_uid),
            elements: ds,
            end: 0,
        }
    }

    /// Whether the table names all that a data set needs to be trusted: an
    /// implementation class besides the identifiers that resolving asks for.
    pub fn is_complete(&self) -> (r: bool)
        ensures
            r == (self@.implementation_class_uid.len() > 0),
    {
        self.implementation_class_uid.len() > 0
    }

    /// Encodes the file meta group: the group length first, then the other
    /// elements of the table.
    pub fn encode(&self) -> (r: Result<Vec<u8>, EncodeError>)
        ensures
            match r {
                Ok(v) => spec_encode_meta(self@.elements) matches Ok(s) && s == v@,
                Err(x) => spec_encode_meta(self@.elements) matches Err(y) && y == x,
            },
    {
        let enc = Encoding { explicit_vr: true, big_endian: false, encapsulated: false };
        let policy = LengthPolicy::defined();
        let skip = Tag { group: 0x0002, element: 0x0000 };
        let rest = match encode_without(&self.elements, skip, enc, &policy) {
            Ok(v) => v,
            Err(x) => {
                return Err(x);
            },
        };
        if rest.len() > 0xFFFF_FFFF {
            return Err(EncodeError::LengthOverflow { tag: skip });
        }
        let mut out: Vec<u8> = Vec::new();
        push_header(&mut out, ElementHeader { tag: skip, vr: VR::UL, len: 4 }, enc);
        push_u32(&mut out, rest.len() as u32, false);
        append(&mut out, rest.as_slice());
        Ok(out)
    }
}

impl FileMeta {
    /// The state that holds the stream and has looked at nothing.
    pub fn unparsed(raw: Vec<u8>) -> (m: FileMeta)
        ensures
            m == FileMeta::Unparsed(raw),
    {
        FileMeta::Unparsed(raw)
    }

    /// Whether the table is resolved.
    pub fn is_resolved(&self) -> (r: bool)
        ensures
            r == (self is Resolved),
    {
        match self {
            FileMeta::Resolved(_) => true,
            FileMeta::Unparsed(_) => false,
        }
    }

    /// The resolved table, where the state is the resolved one.
    pub fn table(&self) -> (r: Option<&FileMetaTable>)
        ensures
            match r {
                Some(t) => *self == FileMeta::Resolved(*t),
                None => self is Unparsed,
            },
    {
        match self {
            FileMeta::Resolved(t) => Some(t),
            FileMeta::Unparsed(_) => None,
        }
    }

    /// The transition from unparsed to resolved. A resolved table stays as
    /// it is. The transition fails exactly where the group, which starts
    /// with the first byte held, cannot be resolved.
    pub fn resolve(self, registry: &TransferSyntaxRegistry, dictionary: &Dictionary) -> (r: Result<
        FileMeta,
        MetaError,
    >)
        ensures
            match self {
                FileMeta::Resolved(t) => r == Ok::<FileMeta, MetaError>(FileMeta::Resolved(t)),
                FileMeta::Unparsed(raw) => match r {
                    Ok(m) => m matches FileMeta::Resolved(t) && spec_resolve_meta(
                        raw@,
                        0,
                        registry@,
                        dictionary@,
                    ) matches Ok(x) && x == t@,
                    Err(e) => spec_resolve_meta(raw@, 0, registry@, dictionary@) matches Err(f)
                        && f == e@,
                },
            },
    {
        match self {
            FileMeta::Resolved(t) => Ok(FileMeta::Resolved(t)),
            FileMeta::Unparsed(raw) => {
                match FileMetaTable::resolve_at(raw.as_slice(), 0, registry, dictionary) {
                    Ok(t) => Ok(FileMeta::Resolved(t)),
                    Err(e) => Err(e),
                }
            },
        }
    }
}

} // verus!
