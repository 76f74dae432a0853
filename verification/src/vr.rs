//! The value representations and what the catalog says of each.

use vstd::prelude::*;

verus! {

/// A value representation: the two-letter code that governs how the value
/// of an element is laid out.
#[derive(Clone, Copy, Debug, PartialEq, Eq, Structural, Hash)]
pub enum VR {
    AE,
    AS,
    AT,
    CS,
    DA,
    DS,
    DT,
    FD,
    FL,
    IS,
    LO,
    LT,
    OB,
    OD,
    OF,
    OL,
    OV,
    OW,
    PN,
    SH,
    SL,
    SQ,
    SS,
    ST,
    SV,
    TM,
    UC,
    UI,
    UL,
    /// Unknown: raw bytes. Every code that is not in this list is read as UN.
    UN,
    UR,
    US,
    UT,
    UV,
}

/// The shape of the values that a representation holds.
#[derive(Clone, Copy, Debug, PartialEq, Eq, Structural, Hash)]
pub enum ValueKind {
    /// Text split on the backslash into trimmed components.
    Strings,
    /// One text, not split; only trailing padding is removed.
    Text,
    /// Raw bytes (OB, OW and UN).
    Bytes,
    U16,
    I16,
    U32,
    I32,
    U64,
    I64,
    /// 32-bit floating point numbers, held as their bit patterns.
    F32,
    /// 64-bit floating point numbers, held as their bit patterns.
    F64,
    /// Tags.
    Tags,
    /// Nested items.
    Sequence,
}

/// What the catalog says of one representation.
#[derive(Clone, Copy, Debug, PartialEq, Eq, Structural)]
pub struct VrInfo {
    /// The width in bytes of the length field under explicit encoding: 2 or 4.
    pub length_field_width: u8,
    /// Whether the length may be the undefined length.
    pub allows_undefined_length: bool,
    /// The number of bytes that are swapped together when the byte order changes.
    pub swap_unit: u8,
    /// The shape of the values.
    pub value_kind: ValueKind,
}

/// The undefined length.
pub const UNDEFINED_LENGTH: u32 = 0xFFFF_FFFF;

/// The two letters of a representation, as ASCII codes.
pub open spec fn spec_code(vr: VR) -> (u8, u8) {
    match vr {
        VR::AE => (0x41, 0x45),
        VR::AS => (0x41, 0x53),
        VR::AT => (0x41, 0x54),
        VR::CS => (0x43, 0x53),
        VR::DA => (0x44, 0x41),
        VR::DS => (0x44, 0x53),
        VR::DT => (0x44, 0x54),
        VR::FD => (0x46, 0x44),
        VR::FL => (0x46, 0x4C),
        VR::IS => (0x49, 0x53),
        VR::LO => (0x4C, 0x4F),
        VR::LT => (0x4C, 0x54),
        VR::OB => (0x4F, 0x42),
        VR::OD => (0x4F, 0x44),
        VR::OF => (0x4F, 0x46),
        VR::OL => (0x4F, 0x4C),
        VR::OV => (0x4F, 0x56),
        VR::OW => (0x4F, 0x57),
        VR::PN => (0x50, 0x4E),
        VR::SH => (0x53, 0x48),
        VR::SL => (0x53, 0x4C),
        VR::SQ => (0x53, 0x51),
        VR::SS => (0x53, 0x53),
        VR::ST => (0x53, 0x54),
        VR::SV => (0x53, 0x56),
        VR::TM => (0x54, 0x4D),
        VR::UC => (0x55, 0x43),
        VR::UI => (0x55, 0x49),
        VR::UL => (0x55, 0x4C),
        VR::UN => (0x55, 0x4E),
        VR::UR => (0x55, 0x52),
        VR::US => (0x55, 0x53),
        VR::UT => (0x55, 0x54),
        VR::UV => (0x55, 0x56),
    }
}

/// The representation that a two-letter code names; UN where it names none.
pub open spec fn spec_from_code(c0: u8, c1: u8) -> VR {
    if c0 == 0x41 && c1 == 0x45 {
        VR::AE
    } else if c0 == 0x41 && c1 == 0x53 {
        VR::AS
    } else if c0 == 0x41 && c1 == 0x54 {
        VR::AT
    } else if c0 == 0x43 && c1 == 0x53 {
        VR::CS
    } else if c0 == 0x44 && c1 == 0x41 {
        VR::DA
    } else if c0 == 0x44 && c1 == 0x53 {
        VR::DS
    } else if c0 == 0x44 && c1 == 0x54 {
        VR::DT
    } else if c0 == 0x46 && c1 == 0x44 {
        VR::FD
    } else if c0 == 0x46 && c1 == 0x4C {
        VR::FL
    } else if c0 == 0x49 && c1 == 0x53 {
        VR::IS
    } else if c0 == 0x4C && c1 == 0x4F {
        VR::LO
    } else if c0 == 0x4C && c1 == 0x54 {
        VR::LT
    } else if c0 == 0x4F && c1 == 0x42 {
        VR::OB
    } else if c0 == 0x4F && c1 == 0x44 {
        VR::OD
    } else if c0 == 0x4F && c1 == 0x46 {
        VR::OF
    } else if c0 == 0x4F && c1 == 0x4C {
        VR::OL
    } else if c0 == 0x4F && c1 == 0x56 {
        VR::OV
    } else if c0 == 0x4F && c1 == 0x57 {
        VR::OW
    } else if c0 == 0x50 && c1 == 0x4E {
        VR::PN
    } else if c0 == 0x53 && c1 == 0x48 {
        VR::SH
    } else if c0 == 0x53 && c1 == 0x4C {
        VR::SL
    } else if c0 == 0x53 && c1 == 0x51 {
        VR::SQ
    } else if c0 == 0x53 && c1 == 0x53 {
        VR::SS
    } else if c0 == 0x53 && c1 == 0x54 {
        VR::ST
    } else if c0 == 0x53 && c1 == 0x56 {
        VR::SV
    } else if c0 == 0x54 && c1 == 0x4D {
        VR::TM
    } else if c0 == 0x55 && c1 == 0x43 {
        VR::UC
    } else if c0 == 0x55 && c1 == 0x49 {
        VR::UI
    } else if c0 == 0x55 && c1 == 0x4C {
        VR::UL
    } else if c0 == 0x55 && c1 == 0x52 {
        VR::UR
    } else if c0 == 0x55 && c1 == 0x53 {
        VR::US
    } else if c0 == 0x55 && c1 == 0x54 {
        VR::UT
    } else if c0 == 0x55 && c1 == 0x56 {
        VR::UV
    } else {
        VR::UN
    }
}

/// The shape of the values of a representation.
pub open spec fn spec_value_kind(vr: VR) -> ValueKind {
    match vr {
        VR::AE | VR::AS | VR::CS | VR::DA | VR::DS | VR::DT | VR::IS | VR::LO | VR::PN | VR::SH
        | VR::TM | VR::UC | VR::UI => ValueKind::Strings,
        VR::LT | VR::ST | VR::UR | VR::UT => ValueKind::Text,
        VR::OB | VR::OW | VR::UN => ValueKind::Bytes,
        VR::US => ValueKind::U16,
        VR::SS => ValueKind::I16,
        VR::UL | VR::OL => ValueKind::U32,
        VR::SL => ValueKind::I32,
        VR::UV | VR::OV => ValueKind::U64,
        VR::SV => ValueKind::I64,
        VR::FL | VR::OF => ValueKind::F32,
        VR::FD | VR::OD => ValueKind::F64,
        VR::AT => ValueKind::Tags,
        VR::SQ => ValueKind::Sequence,
    }
}

/// The number of bytes that are swapped together when the byte order of a
/// value of a representation changes: one for text, raw bytes and
/// sequences, two for 16-bit numbers, for the two halves of a tag and for
/// the words of OW, four and eight for the wider numbers.
pub open spec fn spec_swap_unit(vr: VR) -> u8 {
    match vr {
        VR::AE | VR::AS | VR::CS | VR::DA | VR::DS | VR::DT | VR::IS | VR::LO | VR::LT | VR::OB
        | VR::PN | VR::SH | VR::SQ | VR::ST | VR::TM | VR::UC | VR::UI | VR::UN | VR::UR
        | VR::UT => 1,
        VR::AT | VR::OW | VR::SS | VR::US => 2,
        VR::FL | VR::OF | VR::OL | VR::SL | VR::UL => 4,
        VR::FD | VR::OD | VR::OV | VR::SV | VR::UV => 8,
    }
}

/// The number of bytes of one value of a kind, of which the length of a
/// stored value is a multiple.
pub open spec fn spec_unit(kind: ValueKind) -> u8 {
    match kind {
        ValueKind::Strings | ValueKind::Text | ValueKind::Bytes | ValueKind::Sequence => 1,
        ValueKind::U16 | ValueKind::I16 | ValueKind::Tags => 2,
        ValueKind::U32 | ValueKind::I32 | ValueKind::F32 => 4,
        ValueKind::U64 | ValueKind::I64 | ValueKind::F64 => 8,
    }
}

/// Whether the length field of a representation is four bytes wide under
/// explicit encoding (after two reserved bytes), not two.
pub open spec fn spec_long_length(vr: VR) -> bool {
    match vr {
        VR::OB | VR::OD | VR::OF | VR::OL | VR::OV | VR::OW | VR::SQ | VR::SV | VR::UC | VR::UN
        | VR::UR | VR::UT | VR::UV => true,
        _ => false,
    }
}

/// Whether a representation may be stored with the undefined length: the
/// sequence, and the two representations of pixel data.
pub open spec fn spec_allows_undefined_length(vr: VR) -> bool {
    vr == VR::SQ || vr == VR::OB || vr == VR::OW
}

/// The catalog entry of a representation.
pub open spec fn spec_describe(vr: VR) -> VrInfo {
    VrInfo {
        length_field_width: if spec_long_length(vr) {
            4
        } else {
            2
        },
        allows_undefined_length: spec_allows_undefined_length(vr),
        swap_unit: spec_swap_unit(vr),
        value_kind: spec_value_kind(vr),
    }
}

impl VR {
    /// The two letters of the representation.
    pub fn code(self) -> (r: (u8, u8))
        ensures
            r == spec_code(self),
    {
        match self {
            VR::AE => (0x41, 0x45),
            VR::AS => (0x41, 0x53),
            VR::AT => (0x41, 0x54),
            VR::CS => (0x43, 0x53),
            VR::DA => (0x44, 0x41),
            VR::DS => (0x44, 0x53),
            VR::DT => (0x44, 0x54),
            VR::FD => (0x46, 0x44),
            VR::FL => (0x46, 0x4C),
            VR::IS => (0x49, 0x53),
            VR::LO => (0x4C, 0x4F),
            VR::LT => (0x4C, 0x54),
            VR::OB => (0x4F, 0x42),
            VR::OD => (0x4F, 0x44),
            VR::OF => (0x4F, 0x46),
            VR::OL => (0x4F, 0x4C),
            VR::OV => (0x4F, 0x56),
            VR::OW => (0x4F, 0x57),
            VR::PN => (0x50, 0x4E),
            VR::SH => (0x53, 0x48),
            VR::SL => (0x53, 0x4C),
            VR::SQ => (0x53, 0x51),
            VR::SS => (0x53, 0x53),
            VR::ST => (0x53, 0x54),
            VR::SV => (0x53, 0x56),
            VR::TM => (0x54, 0x4D),
            VR::UC => (0x55, 0x43),
            VR::UI => (0x55, 0x49),
            VR::UL => (0x55, 0x4C),
            VR::UN => (0x55, 0x4E),
            VR::UR => (0x55, 0x52),
            VR::US => (0x55, 0x53),
            VR::UT => (0x55, 0x54),
            VR::UV => (0x55, 0x56),
        }
    }

    /// The representation named by two letters. A code that names none is
    /// read as UN, since vendors now and then write codes of their own.
    pub fn from_code(c0: u8, c1: u8) -> (vr: VR)
        ensures
            vr == spec_from_code(c0, c1),
    {
        if c0 == 0x41 {
            if c1 == 0x45 {
                VR::AE
            } else if c1 == 0x53 {
                VR::AS
            } else if c1 == 0x54 {
                VR::AT
            } else {
                VR::UN
            }
        } else if c0 == 0x43 {
            if c1 == 0x53 {
                VR::CS
            } else {
                VR::UN
            }
        } else if c0 == 0x44 {
            if c1 == 0x41 {
                VR::DA
            } else if c1 == 0x53 {
                VR::DS
            } else if c1 == 0x54 {
                VR::DT
            } else {
                VR::UN
            }
        } else if c0 == 0x46 {
            if c1 == 0x44 {
                VR::FD
            } else if c1 == 0x4C {
                VR::FL
            } else {
                VR::UN
            }
        } else if c0 == 0x49 {
            if c1 == 0x53 {
                VR::IS
            } else {
                VR::UN
            }
        } else if c0 == 0x4C {
            if c1 == 0x4F {
                VR::LO
            } else if c1 == 0x54 {
                VR::LT
            } else {
                VR::UN
            }
        } else if c0 == 0x4F {
            if c1 == 0x42 {
                VR::OB
            } else if c1 == 0x44 {
                VR::OD
            } else if c1 == 0x46 {
                VR::OF
            } else if c1 == 0x4C {
                VR::OL
            } else if c1 == 0x56 {
                VR::OV
            } else if c1 == 0x57 {
                VR::OW
            } else {
                VR::UN
            }
        } else if c0 == 0x50 {
            if c1 == 0x4E {
                VR::PN
            } else {
                VR::UN
            }
        } else if c0 == 0x53 {
            if c1 == 0x48 {
                VR::SH
            } else if c1 == 0x4C {
                VR::SL
            } else if c1 == 0x51 {
                VR::SQ
            } else if c1 == 0x53 {
                VR::SS
            } else if c1 == 0x54 {
                VR::ST
            } else if c1 == 0x56 {
                VR::SV
            } else {
                VR::UN
            }
        } else if c0 == 0x54 {
            if c1 == 0x4D {
                VR::TM
            } else {
                VR::UN
            }
        } else if c0 == 0x55 {
            if c1 == 0x43 {
                VR::UC
            } else if c1 == 0x49 {
                VR::UI
            } else if c1 == 0x4C {
                VR::UL
            } else if c1 == 0x52 {
                VR::UR
            } else if c1 == 0x53 {
                VR::US
            } else if c1 == 0x54 {
                VR::UT
            } else if c1 == 0x56 {
                VR::UV
            } else {
                VR::UN
            }
        } else {
            VR::UN
        }
    }

    /// The shape of the values of the representation.
    pub fn value_kind(self) -> (k: ValueKind)
        ensures
            k == spec_value_kind(self),
    {
        match self {
            VR::AE | VR::AS | VR::CS | VR::DA | VR::DS | VR::DT | VR::IS | VR::LO | VR::PN
            | VR::SH | VR::TM | VR::UC | VR::UI => ValueKind::Strings,
            VR::LT | VR::ST | VR::UR | VR::UT => ValueKind::Text,
            VR::OB | VR::OW | VR::UN => ValueKind::Bytes,
            VR::US => ValueKind::U16,
            VR::SS => ValueKind::I16,
            VR::UL | VR::OL => ValueKind::U32,
            VR::SL => ValueKind::I32,
            VR::UV | VR::OV => ValueKind::U64,
            VR::SV => ValueKind::I64,
            VR::FL | VR::OF => ValueKind::F32,
            VR::FD | VR::OD => ValueKind::F64,
            VR::AT => ValueKind::Tags,
            VR::SQ => ValueKind::Sequence,
        }
    }

    /// Whether the length field is four bytes wide under explicit encoding.
    pub fn has_long_length(self) -> (r: bool)
        ensures
            r == spec_long_length(self),
    {
        match self {
            VR::OB | VR::OD | VR::OF | VR::OL | VR::OV | VR::OW | VR::SQ | VR::SV | VR::UC
            | VR::UN | VR::UR | VR::UT | VR::UV => true,
            _ => false,
        }
    }

    /// The number of bytes that are swapped together when the byte order
    /// changes.
    pub fn swap_unit(self) -> (r: u8)
        ensures
            r == spec_swap_unit(self),
            r == 1 || r == 2 || r == 4 || r == 8,
    {
        match self {
            VR::AT | VR::OW | VR::SS | VR::US => 2,
            VR::FL | VR::OF | VR::OL | VR::SL | VR::UL => 4,
            VR::FD | VR::OD | VR::OV | VR::SV | VR::UV => 8,
            _ => 1,
        }
    }

    /// The catalog entry of the representation.
    pub fn describe(self) -> (info: VrInfo)
        ensures
            info == spec_describe(self),
            info.length_field_width == 2 || info.length_field_width == 4,
            info.swap_unit == 1 || info.swap_unit == 2 || info.swap_unit == 4
                || info.swap_unit == 8,
    {
        let kind = self.value_kind();
        VrInfo {
            length_field_width: if self.has_long_length() {
                4
            } else {
                2
            },
            allows_undefined_length: match self {
                VR::SQ | VR::OB | VR::OW => true,
                _ => false,
            },
            swap_unit: self.swap_unit(),
            value_kind: kind,
        }
    }
}

impl ValueKind {
    /// The number of bytes of one value.
    pub fn unit(self) -> (r: u8)
        ensures
            r == spec_unit(self),
            r == 1 || r == 2 || r == 4 || r == 8,
    {
        match self {
            ValueKind::Strings | ValueKind::Text | ValueKind::Bytes | ValueKind::Sequence => 1,
            ValueKind::U16 | ValueKind::I16 | ValueKind::Tags => 2,
            ValueKind::U32 | ValueKind::I32 | ValueKind::F32 => 4,
            ValueKind::U64 | ValueKind::I64 | ValueKind::F64 => 8,
        }
    }
}

/// The code of every representation names that representation.
pub proof fn lemma_code_round_trip(vr: VR)
    ensures
        spec_from_code(spec_code(vr).0, spec_code(vr).1) == vr,
{
}

} // verus!
