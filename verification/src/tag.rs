//! Element tags and their order.

use vstd::prelude::*;

verus! {

/// The identifier of a data element: a group number and an element number.
#[derive(Clone, Copy, Debug, PartialEq, Eq, Structural, Hash)]
pub struct Tag {
    pub group: u16,
    pub element: u16,
}

/// The tag that opens an item or a pixel data fragment.
pub open spec fn spec_item_tag() -> Tag {
    Tag { group: 0xFFFE, element: 0xE000 }
}

/// The tag that closes an item of undefined length.
pub open spec fn spec_item_delimiter_tag() -> Tag {
    Tag { group: 0xFFFE, element: 0xE00D }
}

/// The tag that closes a sequence of undefined length.
pub open spec fn spec_sequence_delimiter_tag() -> Tag {
    Tag { group: 0xFFFE, element: 0xE0DD }
}

/// The tag of the Pixel Data element.
pub open spec fn spec_pixel_data_tag() -> Tag {
    Tag { group: 0x7FE0, element: 0x0010 }
}

impl Tag {
    /// The position of the tag in the total order of tags: first by group,
    /// then by element.
    pub open spec fn key(self) -> int {
        65536 * (self.group as int) + (self.element as int)
    }

    /// Whether the tag belongs to a private group: an odd group from 0x0009 on.
    pub open spec fn spec_is_private(self) -> bool {
        self.group % 2 == 1 && self.group >= 0x0009
    }

    /// Whether the tag is a private creator element: element 0x0010 to
    /// 0x00FF of a private group.
    pub open spec fn spec_is_private_creator(self) -> bool {
        self.spec_is_private() && 0x0010 <= self.element <= 0x00FF
    }

    /// The tag of the element that names the creator of this private tag's
    /// block: in the same group, the element numbered by the block.
    pub open spec fn spec_creator_tag(self) -> Tag {
        Tag { group: self.group, element: self.element / 256 }
    }

    /// The tag with the group and the element given.
    pub fn new(group: u16, element: u16) -> (t: Tag)
        ensures
            t == (Tag { group, element }),
    {
        Tag { group, element }
    }

    /// Whether `self` comes before `other` in the order of tags.
    pub fn precedes(&self, other: &Tag) -> (r: bool)
        ensures
            r == (self.key() < other.key()),
    {
        self.group < other.group || (self.group == other.group && self.element < other.element)
    }

    /// Whether the two tags are the same.
    pub fn same(&self, other: &Tag) -> (r: bool)
        ensures
            r == (*self == *other),
            r == (self.key() == other.key()),
    {
        self.group == other.group && self.element == other.element
    }

    /// Whether the tag belongs to a private group.
    pub fn is_private(&self) -> (r: bool)
        ensures
            r == self.spec_is_private(),
    {
        self.group % 2 == 1 && self.group >= 0x0009
    }

    /// Whether the tag is a private creator element.
    pub fn is_private_creator(&self) -> (r: bool)
        ensures
            r == self.spec_is_private_creator(),
    {
        self.is_private() && 0x0010 <= self.element && self.element <= 0x00FF
    }

    /// Whether the tag belongs to the file meta group.
    pub fn is_meta(&self) -> (r: bool)
        ensures
            r == (self.group == 0x0002),
    {
        self.group == 0x0002
    }

    /// The tag of the element that names the creator of this private tag's
    /// block.
    pub fn creator_tag(&self) -> (t: Tag)
        ensures
            t == self.spec_creator_tag(),
    {
        Tag { group: self.group, element: self.element / 256 }
    }

    /// The tag that opens an item or a pixel data fragment.
    pub fn item() -> (t: Tag)
        ensures
            t == spec_item_tag(),
    {
        Tag { group: 0xFFFE, element: 0xE000 }
    }

    /// The tag that closes an item of undefined length.
    pub fn item_delimiter() -> (t: Tag)
        ensures
            t == spec_item_delimiter_tag(),
    {
        Tag { group: 0xFFFE, element: 0xE00D }
    }

    /// The tag that closes a sequence of undefined length.
    pub fn sequence_delimiter() -> (t: Tag)
        ensures
            t == spec_sequence_delimiter_tag(),
    {
        Tag { group: 0xFFFE, element: 0xE0DD }
    }

    /// The tag of the Pixel Data element.
    pub fn pixel_data() -> (t: Tag)
        ensures
            t == spec_pixel_data_tag(),
    {
        Tag { group: 0x7FE0, element: 0x0010 }
    }
}

/// Two tags with the same key are the same tag, and the order of the
/// keys is a strict total order on tags.
pub proof fn lemma_key_injective(a: Tag, b: Tag)
    ensures
        a.key() == b.key() <==> a == b,
        a.key() < b.key() || a.key() == b.key() || b.key() < a.key(),
{
}

} // verus!
