//! Transfer syntaxes: how a whole data set is encoded, and the registry
//! that resolves the identifier of a transfer syntax to its descriptor.

use crate::text::bytes_equal;
use crate::text::copy_range;
use vstd::prelude::*;
use vstd::string::StringSliceAdditionalSpecFns;

verus! {

/// What the decoder and the encoder need to know of a transfer syntax.
#[derive(Clone, Copy, Debug, PartialEq, Eq, Structural)]
pub struct Encoding {
    /// Whether each element carries its value representation.
    pub explicit_vr: bool,
    /// Whether numbers are stored most significant byte first.
    pub big_endian: bool,
    /// Whether pixel data is stored in fragments (a compressed transfer
    /// syntax).
    pub encapsulated: bool,
}

/// The descriptor of a transfer syntax.
#[derive(Clone, Debug, PartialEq, Eq)]
pub struct TransferSyntax {
    /// The unique identifier, as bytes of text.
    pub uid: Vec<u8>,
    pub explicit_vr: bool,
    pub big_endian: bool,
    /// Whether the data set is stored deflated. The decoder and the encoder
    /// work on the stream as it is before deflation.
    pub deflated: bool,
}

/// The mathematical model of a descriptor.
pub ghost struct TransferSyntaxModel {
    pub uid: Seq<u8>,
    pub explicit_vr: bool,
    pub big_endian: bool,
    pub deflated: bool,
}

impl View for TransferSyntax {
    type V = TransferSyntaxModel;

    open spec fn view(&self) -> TransferSyntaxModel {
        TransferSyntaxModel {
            uid: self.uid@,
            explicit_vr: self.explicit_vr,
            big_endian: self.big_endian,
            deflated: self.deflated,
        }
    }
}

/// The identifier that no registered transfer syntax carries.
#[derive(Clone, Debug, PartialEq, Eq)]
pub struct UnsupportedTransferSyntax {
    pub uid: Vec<u8>,
}

/// The registry of transfer syntaxes.
#[derive(Debug)]
pub struct TransferSyntaxRegistry {
    pub entries: Vec<TransferSyntax>,
}

/// Implicit VR Little Endian.
pub open spec fn implicit_vr_le_uid() -> Seq<u8> {
    "1.2.840.10008.1.2".spec_bytes()
}

/// Explicit VR Little Endian.
pub open spec fn explicit_vr_le_uid() -> Seq<u8> {
    "1.2.840.10008.1.2.1".spec_bytes()
}

/// Deflated Explicit VR Little Endian.
pub open spec fn deflated_explicit_vr_le_uid() -> Seq<u8> {
    "1.2.840.10008.1.2.1.99".spec_bytes()
}

/// Explicit VR Big Endian.
pub open spec fn explicit_vr_be_uid() -> Seq<u8> {
    "1.2.840.10008.1.2.2".spec_bytes()
}

/// Whether an identifier names one of the transfer syntaxes that store
/// pixel data as it is, not in fragments.
pub open spec fn is_native_uid(uid: Seq<u8>) -> bool {
    uid == implicit_vr_le_uid() || uid == explicit_vr_le_uid() || uid
        == deflated_explicit_vr_le_uid() || uid == explicit_vr_be_uid()
}

impl TransferSyntaxModel {
    /// What the decoder and the encoder need to know of the transfer syntax.
    pub open spec fn encoding(self) -> Encoding {
        Encoding {
            explicit_vr: self.explicit_vr,
            big_endian: self.big_endian,
            encapsulated: !is_native_uid(self.uid),
        }
    }
}

/// The models of the descriptors of a registry.
pub open spec fn registry_model(entries: Seq<TransferSyntax>) -> Seq<TransferSyntaxModel> {
    entries.map_values(|t: TransferSyntax| t@)
}

/// The first descriptor with the identifier `uid` at or after position
/// `from`.
pub open spec fn find_syntax(entries: Seq<TransferSyntaxModel>, uid: Seq<u8>, from: int) -> Option<
    int,
>
    decreases entries.len() - from,
{
    if from < 0 || from >= entries.len() {
        None
    } else if entries[from].uid == uid {
        Some(from)
    } else {
        find_syntax(entries, uid, from + 1)
    }
}

/// The two descriptors that every registry starts with.
pub open spec fn builtin_syntaxes() -> Seq<TransferSyntaxModel> {
    seq![
        TransferSyntaxModel {
            uid: implicit_vr_le_uid(),
            explicit_vr: false,
            big_endian: false,
            deflated: false,
        },
        TransferSyntaxModel {
            uid: explicit_vr_le_uid(),
            explicit_vr: true,
            big_endian: false,
            deflated: false,
        },
    ]
}

impl View for TransferSyntaxRegistry {
    type V = Seq<TransferSyntaxModel>;

    open spec fn view(&self) -> Seq<TransferSyntaxModel> {
        registry_model(self.entries@)
    }
}

impl Encoding {
    /// Implicit VR Little Endian.
    pub fn implicit_vr_le() -> (e: Encoding)
        ensures
            e == (Encoding { explicit_vr: false, big_endian: false, encapsulated: false }),
    {
        Encoding { explicit_vr: false, big_endian: false, encapsulated: false }
    }

    /// Explicit VR Little Endian.
    pub fn explicit_vr_le() -> (e: Encoding)
        ensures
            e == (Encoding { explicit_vr: true, big_endian: false, encapsulated: false }),
    {
        Encoding { explicit_vr: true, big_endian: false, encapsulated: false }
    }
}

impl TransferSyntax {
    /// A descriptor with the identifier `uid`.
    pub fn new(uid: &str, explicit_vr: bool, big_endian: bool, deflated: bool) -> (t:
        TransferSyntax)
        ensures
            t@ == (TransferSyntaxModel {
                uid: uid.spec_bytes(),
                explicit_vr,
                big_endian,
                deflated,
            }),
    {
        let bytes = uid.as_bytes();
        let copy = copy_range(bytes, 0, bytes.len());
        assert(bytes@.subrange(0, bytes@.len() as int) == bytes@);
        TransferSyntax { uid: copy, explicit_vr, big_endian, deflated }
    }

    /// Whether the transfer syntax stores pixel data as it is.
    pub fn is_native(&self) -> (r: bool)
        ensures
            r == is_native_uid(self.uid@),
    {
        let uid = self.uid.as_slice();
        bytes_equal(uid, "1.2.840.10008.1.2".as_bytes()) || bytes_equal(
            uid,
            "1.2.840.10008.1.2.1".as_bytes(),
        ) || bytes_equal(uid, "1.2.840.10008.1.2.1.99".as_bytes()) || bytes_equal(
            uid,
            "1.2.840.10008.1.2.2".as_bytes(),
        )
    }

    /// What the decoder and the encoder need to know of the transfer syntax.
    pub fn encoding(&self) -> (e: Encoding)
        ensures
            e == self@.encoding(),
    {
        Encoding {
            explicit_vr: self.explicit_vr,
            big_endian: self.big_endian,
            encapsulated: !self.is_native(),
        }
    }

    /// A copy of the descriptor.
    pub fn duplicate(&self) -> (t: TransferSyntax)
        ensures
            t@ == self@,
    {
        let uid = copy_range(self.uid.as_slice(), 0, self.uid.len());
        assert(self.uid@.subrange(0, self.uid@.len() as int) == self.uid@);
        TransferSyntax {
            uid,
            explicit_vr: self.explicit_vr,
            big_endian: self.big_endian,
            deflated: self.deflated,
        }
    }
}

impl TransferSyntaxRegistry {
    /// The registry with the two built-in transfer syntaxes: Implicit VR
    /// Little Endian and Explicit VR Little Endian.
    pub fn new() -> (r: TransferSyntaxRegistry)
        ensures
            r@ == builtin_syntaxes(),
    {
        let mut entries: Vec<TransferSyntax> = Vec::new();
        entries.push(TransferSyntax::new("1.2.840.10008.1.2", false, false, false));
        entries.push(TransferSyntax::new("1.2.840.10008.1.2.1", true, false, false));
        let r = TransferSyntaxRegistry { entries };
        r
    }

    /// The position of the descriptor with the identifier `uid`.
    fn position(&self, uid: &[u8]) -> (r: Option<usize>)
        ensures
            match r {
                Some(i) => find_syntax(self@, uid@, 0) == Some(i as int) && i
                    < self.entries@.len() && self.entries@[i as int].uid@ == uid@,
                None => find_syntax(self@, uid@, 0) is None,
            },
    {
        let mut i: usize = 0;
        while i < self.entries.len()
            invariant
                i <= self.entries@.len(),
                self@.len() == self.entries@.len(),
                find_syntax(self@, uid@, 0) == find_syntax(self@, uid@, i as int),
            decreases self.entries@.len() - i,
        {
            if bytes_equal(self.entries[i].uid.as_slice(), uid) {
                return Some(i);
            }
            i += 1;
        }
        None
    }

    /// Adds a descriptor, unless one with its identifier is registered
    /// already. Returns whether it was added.
    pub fn register(&mut self, syntax: TransferSyntax) -> (added: bool)
        ensures
            added == (find_syntax(old(self)@, syntax@.uid, 0) is None),
            added ==> final(self)@ == old(self)@.push(syntax@),
            !added ==> final(self)@ == old(self)@,
    {
        match self.position(syntax.uid.as_slice()) {
            Some(_) => false,
            None => {
                self.entries.push(syntax);
                true
            },
        }
    }

    /// The descriptor with the identifier `uid`, given as bytes of text.
    ///
    /// Fails exactly where no registered descriptor carries the identifier.
    pub fn resolve_bytes(&self, uid: &[u8]) -> (r: Result<
        &TransferSyntax,
        UnsupportedTransferSyntax,
    >)
        ensures
            match r {
                Ok(t) => find_syntax(self@, uid@, 0) matches Some(i) && t@ == self@[i] && t@.uid
                    == uid@,
                Err(e) => find_syntax(self@, uid@, 0) is None && e.uid@ == uid@,
            },
    {
        match self.position(uid) {
            Some(i) => {
                Ok(&self.entries[i])
            },
            None => {
                let copy = copy_range(uid, 0, uid.len());
                Err(UnsupportedTransferSyntax { uid: copy })
            },
        }
    }

    /// The descriptor with the identifier `uid`.
    ///
    /// Fails exactly where no registered descriptor carries the identifier.
    pub fn resolve(&self, uid: &str) -> (r: Result<&TransferSyntax, UnsupportedTransferSyntax>)
        ensures
            match r {
                Ok(t) => find_syntax(self@, uid.spec_bytes(), 0) matches Some(i) && t@ == self@[i]
                    && t@.uid == uid.spec_bytes(),
                Err(e) => find_syntax(self@, uid.spec_bytes(), 0) is None && e.uid@
                    == uid.spec_bytes(),
            },
    {
        self.resolve_bytes(uid.as_bytes())
    }
}

} // verus!
