//! Data elements, their values, and the data set: an ordered collection of
//! elements keyed by tag.

use crate::error::EncodeError;
use crate::tag::Tag;
use crate::text::views;
use crate::value::PrimitiveModel;
use crate::value::PrimitiveValue;
use crate::vr::spec_value_kind;
use crate::vr::ValueKind;
use crate::vr::VR;
use vstd::prelude::*;

verus! {

/// The value of a data element.
#[derive(Debug)]
pub enum Value {
    /// No value: the element was stored with length zero.
    Empty,
    Primitive(PrimitiveValue),
    /// A sequence of items, each a data set of its own.
    Sequence(Vec<DataSet>),
    /// Encapsulated pixel data: the basic offset table and the fragments.
    PixelSequence(PixelSequence),
}

/// Encapsulated pixel data: opaque fragments, and before them the basic
/// offset table, which may be empty.
#[derive(Clone, Debug, PartialEq, Eq)]
pub struct PixelSequence {
    pub offset_table: Vec<u8>,
    pub fragments: Vec<Vec<u8>>,
}

/// A data element: a tag, a value representation and a value.
#[derive(Debug)]
pub struct DataElement {
    pub tag: Tag,
    pub vr: VR,
    pub value: Value,
}

/// A data set: data elements in the order of their tags, no tag twice.
/// The items of a sequence are data sets too.
#[derive(Debug)]
pub struct DataSet {
    pub elements: Vec<DataElement>,
}

/// The mathematical model of a value.
pub ghost enum ValueModel {
    Empty,
    Primitive(PrimitiveModel),
    Sequence(Seq<Seq<ElementModel>>),
    PixelSequence { offset_table: Seq<u8>, fragments: Seq<Seq<u8>> },
}

/// The mathematical model of a data element. The model of a data set is
/// the sequence of the models of its elements.
pub ghost struct ElementModel {
    pub tag: Tag,
    pub vr: VR,
    pub value: ValueModel,
}

/// The model of a data element.
pub open spec fn element_model(e: DataElement) -> ElementModel
    decreases e,
{
    ElementModel { tag: e.tag, vr: e.vr, value: value_model(e.value) }
}

/// The model of a value.
pub open spec fn value_model(v: Value) -> ValueModel
    decreases v,
{
    match v {
        Value::Empty => ValueModel::Empty,
        Value::Primitive(p) => ValueModel::Primitive(p@),
        Value::Sequence(items) => ValueModel::Sequence(
            Seq::new(
                items@.len(),
                |i: int|
                    if 0 <= i < items@.len() {
                        dataset_model(items@[i])
                    } else {
                        Seq::empty()
                    },
            ),
        ),
        Value::PixelSequence(p) => ValueModel::PixelSequence {
            offset_table: p.offset_table@,
            fragments: views(p.fragments@),
        },
    }
}

/// The model of a data set.
pub open spec fn dataset_model(ds: DataSet) -> Seq<ElementModel>
    decreases ds,
{
    Seq::new(
        ds.elements@.len(),
        |i: int|
            if 0 <= i < ds.elements@.len() {
                element_model(ds.elements@[i])
            } else {
                arbitrary()
            },
    )
}

/// The models of the items of a sequence.
pub open spec fn items_model(items: Seq<DataSet>) -> Seq<Seq<ElementModel>> {
    Seq::new(items.len(), |i: int| dataset_model(items[i]))
}

/// The model of a sequence value is the sequence of the models of its
/// items.
pub proof fn lemma_sequence_model(items: Vec<DataSet>)
    ensures
        value_model(Value::Sequence(items)) == ValueModel::Sequence(items_model(items@)),
{
    let v = value_model(Value::Sequence(items));
    assert(v is Sequence);
    assert(v->Sequence_0 =~= items_model(items@));
}

impl View for DataElement {
    type V = ElementModel;

    open spec fn view(&self) -> ElementModel {
        element_model(*self)
    }
}

impl View for DataSet {
    type V = Seq<ElementModel>;

    open spec fn view(&self) -> Seq<ElementModel> {
        dataset_model(*self)
    }
}

impl View for Value {
    type V = ValueModel;

    open spec fn view(&self) -> ValueModel {
        value_model(*self)
    }
}

/// Whether the tags of a data set stand in strictly increasing order.
pub open spec fn strictly_ordered(ds: Seq<ElementModel>) -> bool {
    forall|i: int, j: int| 0 <= i < j < ds.len() ==> ds[i].tag.key() < ds[j].tag.key()
}

/// Whether the kind of the value is the one that the catalog prescribes
/// for the representation of the element, here and in every item below: a
/// primitive value is of the kind of the representation, a sequence element
/// holds items and no other element does, and fragments stand under one of
/// the two representations of pixel data.
pub open spec fn kinds_match(e: ElementModel) -> bool
    decreases e,
{
    match e.value {
        ValueModel::Empty => e.vr != VR::SQ,
        ValueModel::Primitive(p) => p.kind() == spec_value_kind(e.vr),
        ValueModel::Sequence(items) => e.vr == VR::SQ && forall|i: int|
            0 <= i < items.len() ==> well_formed(#[trigger] items[i]),
        ValueModel::PixelSequence { .. } => e.vr == VR::OB || e.vr == VR::OW,
    }
}

/// Whether a data set is well formed: its tags stand in strictly increasing
/// order and the value of every element is of the kind that its
/// representation prescribes, in the data set and in every item below it.
pub open spec fn well_formed(ds: Seq<ElementModel>) -> bool
    decreases ds,
{
    &&& strictly_ordered(ds)
    &&& forall|i: int| 0 <= i < ds.len() ==> kinds_match(#[trigger] ds[i])
}

/// The number of elements at the start of `ds` whose tags come before `tag`
/// where the tags are ordered: the place where an element with that tag
/// stands or is to be inserted.
pub open spec fn place_of(ds: Seq<ElementModel>, tag: Tag) -> int
    decreases ds.len(),
{
    if ds.len() == 0 || ds[0].tag.key() >= tag.key() {
        0
    } else {
        1 + place_of(ds.drop_first(), tag)
    }
}

/// The position of the first element with tag `tag`, if there is one.
pub open spec fn position_of(ds: Seq<ElementModel>, tag: Tag) -> Option<int>
    decreases ds.len(),
{
    if ds.len() == 0 {
        None
    } else if ds[0].tag == tag {
        Some(0)
    } else {
        match position_of(ds.drop_first(), tag) {
            Some(i) => Some(i + 1),
            None => None,
        }
    }
}

/// The data set after `e` is put into it: `e` replaces the element with
/// its tag where there is one at its place, else it is inserted there.
pub open spec fn spec_put(ds: Seq<ElementModel>, e: ElementModel) -> Seq<ElementModel> {
    let i = place_of(ds, e.tag);
    if i < ds.len() && ds[i].tag == e.tag {
        ds.update(i, e)
    } else {
        ds.insert(i, e)
    }
}

/// The data set without its first element with tag `tag`.
pub open spec fn spec_remove(ds: Seq<ElementModel>, tag: Tag) -> Seq<ElementModel> {
    match position_of(ds, tag) {
        Some(i) => ds.remove(i),
        None => ds,
    }
}

/// The place of a tag lies within the data set; the tags before it come
/// before the tag, and the tag at it does not.
pub proof fn lemma_place_of(ds: Seq<ElementModel>, tag: Tag)
    ensures
        0 <= place_of(ds, tag) <= ds.len(),
        forall|k: int| 0 <= k < place_of(ds, tag) ==> ds[k].tag.key() < tag.key(),
        place_of(ds, tag) < ds.len() ==> ds[place_of(ds, tag)].tag.key() >= tag.key(),
    decreases ds.len(),
{
    if ds.len() == 0 || ds[0].tag.key() >= tag.key() {
    } else {
        let rest = ds.drop_first();
        lemma_place_of(rest, tag);
        assert forall|k: int| 0 <= k < place_of(ds, tag) implies ds[k].tag.key() < tag.key() by {
            if k > 0 {
                assert(rest[k - 1] == ds[k]);
            }
        }
    }
}

/// The position of a tag holds an element with that tag and no position
/// before it does; where there is no position, no element has the tag.
pub proof fn lemma_position_of(ds: Seq<ElementModel>, tag: Tag)
    ensures
        match position_of(ds, tag) {
            Some(i) => 0 <= i < ds.len() && ds[i].tag == tag && forall|k: int|
                0 <= k < i ==> ds[k].tag != tag,
            None => forall|k: int| 0 <= k < ds.len() ==> ds[k].tag != tag,
        },
    decreases ds.len(),
{
    if ds.len() == 0 {
    } else if ds[0].tag == tag {
    } else {
        let rest = ds.drop_first();
        lemma_position_of(rest, tag);
        match position_of(rest, tag) {
            Some(i) => {
                assert forall|k: int| 0 <= k < i + 1 implies ds[k].tag != tag by {
                    if k > 0 {
                        assert(rest[k - 1] == ds[k]);
                    }
                }
            },
            None => {
                assert forall|k: int| 0 <= k < ds.len() implies ds[k].tag != tag by {
                    if k > 0 {
                        assert(rest[k - 1] == ds[k]);
                    }
                }
            },
        }
    }
}

/// Where the first `i` tags come before `tag` and the next does not, `i` is
/// the place of `tag`.
pub proof fn lemma_place_is(ds: Seq<ElementModel>, tag: Tag, i: int)
    requires
        0 <= i <= ds.len(),
        forall|k: int| 0 <= k < i ==> ds[k].tag.key() < tag.key(),
        i < ds.len() ==> ds[i].tag.key() >= tag.key(),
    ensures
        place_of(ds, tag) == i,
    decreases ds.len(),
{
    if i == 0 {
    } else {
        let rest = ds.drop_first();
        if i < ds.len() {
            assert(rest[i - 1] == ds[i]);
        }
        lemma_place_is(rest, tag, i - 1);
    }
}

/// Where no tag among the first `i` is `tag` and the next is, `i` is the
/// position of `tag`; where none is, there is no position.
pub proof fn lemma_position_is(ds: Seq<ElementModel>, tag: Tag, i: int)
    requires
        0 <= i <= ds.len(),
        forall|k: int| 0 <= k < i ==> ds[k].tag != tag,
        i < ds.len() ==> ds[i].tag == tag,
    ensures
        position_of(ds, tag) == if i < ds.len() {
            Some(i)
        } else {
            None
        },
    decreases ds.len(),
{
    if ds.len() == 0 {
    } else if i == 0 {
    } else {
        let rest = ds.drop_first();
        lemma_position_is(rest, tag, i - 1);
    }
}

/// Putting an element into a data set whose tags are strictly ordered
/// leaves them strictly ordered, and the data set then holds the element
/// at the place of its tag.
pub proof fn lemma_put_keeps_order(ds: Seq<ElementModel>, e: ElementModel)
    requires
        strictly_ordered(ds),
    ensures
        strictly_ordered(spec_put(ds, e)),
        spec_put(ds, e)[place_of(ds, e.tag)] == e,
        position_of(spec_put(ds, e), e.tag) == Some(place_of(ds, e.tag)),
{
    lemma_place_of(ds, e.tag);
    let i = place_of(ds, e.tag);
    let r = spec_put(ds, e);
    if i < ds.len() {
        lemma_key_facts(ds, e, i);
    }
    lemma_position_is(r, e.tag, i);
}

proof fn lemma_key_facts(ds: Seq<ElementModel>, e: ElementModel, i: int)
    requires
        0 <= i < ds.len(),
    ensures
        ds[i].tag.key() == e.tag.key() <==> ds[i].tag == e.tag,
{
}

/// Putting an element whose tag comes after every tag of the data set
/// appends it.
pub proof fn lemma_put_at_end(ds: Seq<ElementModel>, e: ElementModel)
    requires
        forall|k: int| 0 <= k < ds.len() ==> ds[k].tag.key() < e.tag.key(),
    ensures
        spec_put(ds, e) == ds.push(e),
{
    lemma_place_is(ds, e.tag, ds.len() as int);
}

/// Putting a well-formed element into a well-formed data set leaves it
/// well formed.
pub proof fn lemma_put_keeps_well_formed(ds: Seq<ElementModel>, e: ElementModel)
    requires
        well_formed(ds),
        kinds_match(e),
    ensures
        well_formed(spec_put(ds, e)),
{
    lemma_put_keeps_order(ds, e);
    lemma_place_of(ds, e.tag);
}

/// Removing an element from a well-formed data set leaves it well formed,
/// and no element with that tag is left.
pub proof fn lemma_remove_keeps_well_formed(ds: Seq<ElementModel>, tag: Tag)
    requires
        well_formed(ds),
    ensures
        well_formed(spec_remove(ds, tag)),
        position_of(spec_remove(ds, tag), tag) is None,
{
    lemma_position_of(ds, tag);
    let r = spec_remove(ds, tag);
    match position_of(ds, tag) {
        Some(i) => {
            lemma_position_is(r, tag, r.len() as int);
        },
        None => {},
    }
}

/// The first element with tag `tag`, if there is one.
pub open spec fn spec_get(ds: Seq<ElementModel>, tag: Tag) -> Option<ElementModel> {
    match position_of(ds, tag) {
        Some(i) => Some(ds[i]),
        None => None,
    }
}

/// The first component of the text of the element with tag `tag`, where the
/// data set holds such an element and it holds text in components.
pub open spec fn spec_first_string(ds: Seq<ElementModel>, tag: Tag) -> Option<Seq<u8>> {
    match spec_get(ds, tag) {
        Some(e) => match e.value {
            ValueModel::Primitive(PrimitiveModel::Strings(parts)) => if parts.len() > 0 {
                Some(parts[0])
            } else {
                None
            },
            _ => None,
        },
        None => None,
    }
}

/// In a data set whose tags are strictly ordered, the element found under
/// a tag is the only one with that tag.
pub proof fn lemma_get_is(ds: Seq<ElementModel>, tag: Tag, i: int)
    requires
        strictly_ordered(ds),
        0 <= i < ds.len(),
        ds[i].tag == tag,
    ensures
        position_of(ds, tag) == Some(i),
        spec_get(ds, tag) == Some(ds[i]),
{
    lemma_position_is(ds, tag, i);
}

/// The last write wins: after an element is put into a data set whose tags
/// are strictly ordered, it is the element found under its tag, and what is
/// found under every other tag is what was found before.
pub proof fn lemma_get_after_put(ds: Seq<ElementModel>, e: ElementModel, tag: Tag)
    requires
        strictly_ordered(ds),
    ensures
        spec_get(spec_put(ds, e), tag) == if tag == e.tag {
            Some(e)
        } else {
            spec_get(ds, tag)
        },
{
    lemma_put_keeps_order(ds, e);
    lemma_place_of(ds, e.tag);
    lemma_position_of(ds, tag);
    let i = place_of(ds, e.tag);
    let r = spec_put(ds, e);
    let replaced = i < ds.len() && ds[i].tag == e.tag;
    if tag == e.tag {
    } else {
        match position_of(ds, tag) {
            Some(j) => {
                let j2 = if replaced || j < i {
                    j
                } else {
                    j + 1
                };
                assert(r[j2] == ds[j]);
                lemma_get_is(r, tag, j2);
            },
            None => {
                lemma_position_is(r, tag, r.len() as int);
            },
        }
    }
}

/// After an element is removed from a data set whose tags are strictly
/// ordered, nothing is found under its tag, and what is found under every
/// other tag is what was found before.
pub proof fn lemma_get_after_remove(ds: Seq<ElementModel>, removed: Tag, tag: Tag)
    requires
        strictly_ordered(ds),
    ensures
        strictly_ordered(spec_remove(ds, removed)),
        spec_get(spec_remove(ds, removed), tag) == if tag == removed {
            None
        } else {
            spec_get(ds, tag)
        },
{
    lemma_position_of(ds, removed);
    lemma_position_of(ds, tag);
    let r = spec_remove(ds, removed);
    match position_of(ds, removed) {
        Some(i) => {
            if tag == removed {
                lemma_position_is(r, tag, r.len() as int);
            } else {
                match position_of(ds, tag) {
                    Some(j) => {
                        let j2 = if j < i {
                            j
                        } else {
                            j - 1
                        };
                        lemma_get_is(r, tag, j2);
                    },
                    None => {
                        lemma_position_is(r, tag, r.len() as int);
                    },
                }
            }
        },
        None => {},
    }
}

/// The error that writing an element would meet in the element itself:
/// `VrMismatch` where the kind of its value is not the one that its
/// representation prescribes. The items of a sequence are not looked into.
pub open spec fn spec_kind_error(e: ElementModel) -> Option<EncodeError> {
    match e.value {
        ValueModel::Empty => None,
        ValueModel::Primitive(p) => if p.kind() != spec_value_kind(e.vr) {
            Some(
                EncodeError::VrMismatch {
                    tag: e.tag,
                    expected: spec_value_kind(e.vr),
                    actual: p.kind(),
                },
            )
        } else {
            None
        },
        ValueModel::Sequence(_) => if e.vr != VR::SQ {
            Some(
                EncodeError::VrMismatch {
                    tag: e.tag,
                    expected: spec_value_kind(e.vr),
                    actual: ValueKind::Sequence,
                },
            )
        } else {
            None
        },
        ValueModel::PixelSequence { .. } => if e.vr != VR::OB && e.vr != VR::OW {
            Some(
                EncodeError::VrMismatch {
                    tag: e.tag,
                    expected: spec_value_kind(e.vr),
                    actual: ValueKind::Bytes,
                },
            )
        } else {
            None
        },
    }
}

/// One change to a data set.
#[derive(Debug)]
pub enum Edit {
    /// Put this element.
    Put(DataElement),
    /// Remove the element with this tag.
    Remove(Tag),
}

/// The mathematical model of a change.
pub ghost enum EditModel {
    Put(ElementModel),
    Remove(Tag),
}

impl View for Edit {
    type V = EditModel;

    open spec fn view(&self) -> EditModel {
        match self {
            Edit::Put(e) => EditModel::Put(e@),
            Edit::Remove(t) => EditModel::Remove(*t),
        }
    }
}

/// The models of changes.
pub open spec fn edit_models(edits: Seq<Edit>) -> Seq<EditModel> {
    edits.map_values(|e: Edit| e@)
}

impl EditModel {
    /// The tag that the change is about.
    pub open spec fn tag(self) -> Tag {
        match self {
            EditModel::Put(e) => e.tag,
            EditModel::Remove(t) => t,
        }
    }
}

/// The data set after one change.
pub open spec fn apply_edit(ds: Seq<ElementModel>, edit: EditModel) -> Seq<ElementModel> {
    match edit {
        EditModel::Put(e) => spec_put(ds, e),
        EditModel::Remove(t) => spec_remove(ds, t),
    }
}

/// The data set after the changes, made in their order.
pub open spec fn apply_edits(ds: Seq<ElementModel>, edits: Seq<EditModel>) -> Seq<ElementModel>
    decreases edits.len(),
{
    if edits.len() == 0 {
        ds
    } else {
        apply_edits(apply_edit(ds, edits[0]), edits.drop_first())
    }
}

/// The last of the changes that is about `tag`, if any is.
pub open spec fn last_edit(edits: Seq<EditModel>, tag: Tag) -> Option<EditModel>
    decreases edits.len(),
{
    if edits.len() == 0 {
        None
    } else {
        match last_edit(edits.drop_first(), tag) {
            Some(x) => Some(x),
            None => if edits[0].tag() == tag {
                Some(edits[0])
            } else {
                None
            },
        }
    }
}

/// After a series of changes to a data set whose tags are strictly ordered,
/// the tags are strictly ordered, and what is found under a tag is what the
/// last change about that tag says: the element put, or nothing after a
/// removal; under a tag that no change is about, what was found before.
pub proof fn lemma_get_after_edits(ds: Seq<ElementModel>, edits: Seq<EditModel>, tag: Tag)
    requires
        strictly_ordered(ds),
    ensures
        strictly_ordered(apply_edits(ds, edits)),
        spec_get(apply_edits(ds, edits), tag) == match last_edit(edits, tag) {
            Some(EditModel::Put(e)) => Some(e),
            Some(EditModel::Remove(_)) => None,
            None => spec_get(ds, tag),
        },
    decreases edits.len(),
{
    if edits.len() == 0 {
    } else {
        let first = edits[0];
        let next = apply_edit(ds, first);
        match first {
            EditModel::Put(e) => {
                lemma_put_keeps_order(ds, e);
                lemma_get_after_put(ds, e, tag);
            },
            EditModel::Remove(t) => {
                lemma_get_after_remove(ds, t, tag);
            },
        }
        lemma_get_after_edits(next, edits.drop_first(), tag);
    }
}

/// Changes that put only elements whose values are of the kind of their
/// representation leave a well-formed data set well formed.
pub proof fn lemma_edits_keep_well_formed(ds: Seq<ElementModel>, edits: Seq<EditModel>)
    requires
        well_formed(ds),
        forall|i: int|
            0 <= i < edits.len() ==> (#[trigger] edits[i] matches EditModel::Put(e)
                ==> kinds_match(e)),
    ensures
        well_formed(apply_edits(ds, edits)),
    decreases edits.len(),
{
    if edits.len() == 0 {
    } else {
        let first = edits[0];
        match first {
            EditModel::Put(e) => {
                lemma_put_keeps_well_formed(ds, e);
            },
            EditModel::Remove(t) => {
                lemma_remove_keeps_well_formed(ds, t);
            },
        }
        let rest = edits.drop_first();
        lemma_edits_keep_well_formed(apply_edit(ds, first), rest);
    }
}

impl DataElement {
    /// An element with the tag, the representation and the value given.
    pub fn new(tag: Tag, vr: VR, value: Value) -> (e: DataElement)
        ensures
            e == (DataElement { tag, vr, value }),
    {
        DataElement { tag, vr, value }
    }

    /// An element that holds a primitive value.
    pub fn primitive(tag: Tag, vr: VR, value: PrimitiveValue) -> (e: DataElement)
        ensures
            e@ == (ElementModel { tag, vr, value: ValueModel::Primitive(value@) }),
    {
        DataElement { tag, vr, value: Value::Primitive(value) }
    }

    /// An element without a value.
    pub fn empty(tag: Tag, vr: VR) -> (e: DataElement)
        ensures
            e@ == (ElementModel { tag, vr, value: ValueModel::Empty }),
    {
        DataElement { tag, vr, value: Value::Empty }
    }

    /// Whether the kind of the value is the one that the catalog prescribes
    /// for the representation, and the element holds items exactly where it
    /// is a sequence element; the items themselves are not looked into.
    pub fn kind_matches(&self) -> (r: bool)
        ensures
            r == match self@.value {
                ValueModel::Empty => self.vr != VR::SQ,
                ValueModel::Primitive(p) => p.kind() == spec_value_kind(self.vr),
                ValueModel::Sequence(_) => self.vr == VR::SQ,
                ValueModel::PixelSequence { .. } => self.vr == VR::OB || self.vr == VR::OW,
            },
    {
        match &self.value {
            Value::Empty => match self.vr {
                VR::SQ => false,
                _ => true,
            },
            Value::Primitive(p) => same_kind(p.kind(), self.vr.value_kind()),
            Value::Sequence(_) => match self.vr {
                VR::SQ => true,
                _ => false,
            },
            Value::PixelSequence(_) => match self.vr {
                VR::OB | VR::OW => true,
                _ => false,
            },
        }
    }

    /// The mismatch between the kind of the value and the representation,
    /// if there is one.
    pub fn kind_error(&self) -> (r: Option<EncodeError>)
        ensures
            r == spec_kind_error(self@),
    {
        let expected = self.vr.value_kind();
        match &self.value {
            Value::Empty => None,
            Value::Primitive(p) => {
                let actual = p.kind();
                if actual != expected {
                    Some(EncodeError::VrMismatch { tag: self.tag, expected, actual })
                } else {
                    None
                }
            },
            Value::Sequence(_) => {
                if self.vr != VR::SQ {
                    Some(
                        EncodeError::VrMismatch {
                            tag: self.tag,
                            expected,
                            actual: ValueKind::Sequence,
                        },
                    )
                } else {
                    None
                }
            },
            Value::PixelSequence(_) => {
                if self.vr != VR::OB && self.vr != VR::OW {
                    Some(
                        EncodeError::VrMismatch {
                            tag: self.tag,
                            expected,
                            actual: ValueKind::Bytes,
                        },
                    )
                } else {
                    None
                }
            },
        }
    }

    /// The items of a sequence element; `None` for any other element.
    pub fn items(&self) -> (r: Option<&Vec<DataSet>>)
        ensures
            match r {
                Some(items) => self.value == Value::Sequence(*items),
                None => !(self.value is Sequence),
            },
    {
        match &self.value {
            Value::Sequence(items) => Some(items),
            _ => None,
        }
    }

    /// The primitive value of the element; `None` for an element that is
    /// empty or holds items or fragments.
    pub fn primitive_value(&self) -> (r: Option<&PrimitiveValue>)
        ensures
            match r {
                Some(p) => self.value == Value::Primitive(*p),
                None => !(self.value is Primitive),
            },
    {
        match &self.value {
            Value::Primitive(p) => Some(p),
            _ => None,
        }
    }
}

/// Whether two kinds are the same.
pub fn same_kind(a: ValueKind, b: ValueKind) -> (r: bool)
    ensures
        r == (a == b),
{
    a == b
}

impl DataSet {
    /// An empty data set.
    pub fn new() -> (ds: DataSet)
        ensures
            ds@ == Seq::<ElementModel>::empty(),
            well_formed(ds@),
    {
        let ds = DataSet { elements: Vec::new() };
        ds
    }

    /// The number of elements.
    pub fn len(&self) -> (n: usize)
        ensures
            n == self@.len(),
    {
        self.elements.len()
    }

    /// The element at position `i` in the order of the tags.
    pub fn element_at(&self, i: usize) -> (e: &DataElement)
        requires
            i < self@.len(),
        ensures
            e@ == self@[i as int],
            *e == self.elements@[i as int],
    {
        &self.elements[i]
    }

    /// The place of `tag` among the elements.
    fn place(&self, tag: &Tag) -> (i: usize)
        ensures
            i == place_of(self@, *tag),
            i <= self.elements@.len(),
    {
        let mut i: usize = 0;
        while i < self.elements.len() && self.elements[i].tag.precedes(tag)
            invariant
                i <= self.elements@.len(),
                forall|k: int| 0 <= k < i ==> (#[trigger] self@[k]).tag.key() < tag.key(),
            decreases self.elements@.len() - i,
        {
            i += 1;
        }
        proof {
            lemma_place_is(self@, *tag, i as int);
        }
        i
    }

    /// The position of the first element with tag `tag`.
    fn position(&self, tag: &Tag) -> (r: Option<usize>)
        ensures
            match r {
                Some(i) => position_of(self@, *tag) == Some(i as int) && i < self.elements@.len(),
                None => position_of(self@, *tag) is None,
            },
    {
        let mut i: usize = 0;
        while i < self.elements.len() && !self.elements[i].tag.same(tag)
            invariant
                i <= self.elements@.len(),
                forall|k: int| 0 <= k < i ==> (#[trigger] self@[k]).tag != *tag,
            decreases self.elements@.len() - i,
        {
            i += 1;
        }
        proof {
            lemma_position_is(self@, *tag, i as int);
        }
        if i < self.elements.len() {
            Some(i)
        } else {
            None
        }
    }

    /// The first element with tag `tag`, if there is one.
    pub fn get(&self, tag: Tag) -> (r: Option<&DataElement>)
        ensures
            match r {
                Some(e) => position_of(self@, tag) matches Some(i) && e@ == self@[i] && e.tag
                    == tag && spec_get(self@, tag) == Some(e@),
                None => position_of(self@, tag) is None && spec_get(self@, tag) is None,
            },
    {
        match self.position(&tag) {
            Some(i) => {
                proof {
                    lemma_position_of(self@, tag);
                }
                Some(&self.elements[i])
            },
            None => None,
        }
    }

    /// The first component of the text of the element with tag `tag`.
    pub fn first_string(&self, tag: Tag) -> (r: Option<&[u8]>)
        ensures
            match r {
                Some(s) => spec_first_string(self@, tag) == Some(s@),
                None => spec_first_string(self@, tag) is None,
            },
    {
        match self.get(tag) {
            Some(e) => match &e.value {
                Value::Primitive(PrimitiveValue::Strings(parts)) => {
                    if parts.len() > 0 {
                        Some(parts[0].as_slice())
                    } else {
                        None
                    }
                },
                _ => None,
            },
            None => None,
        }
    }

    /// Puts an element into the data set: it replaces the element with its
    /// tag, if there is one at the place of that tag, else it is inserted at
    /// that place. Where the tags were strictly ordered they stay so, and
    /// the last element put under a tag is the one found under it.
    pub fn put(&mut self, e: DataElement)
        ensures
            final(self)@ == spec_put(old(self)@, e@),
            strictly_ordered(old(self)@) ==> strictly_ordered(final(self)@),
            well_formed(old(self)@) && kinds_match(e@) ==> well_formed(final(self)@),
    {
        let i = self.place(&e.tag);
        let ghost before = self@;
        let ghost em = e@;
        let replace = i < self.elements.len() && self.elements[i].tag.same(&e.tag);
        if replace {
            self.elements.remove(i);
        }
        self.elements.insert(i, e);
        proof {
            if replace {
                assert(self@ =~= before.update(i as int, em));
            } else {
            }
            if strictly_ordered(before) {
                lemma_put_keeps_order(before, em);
            }
            if well_formed(before) && kinds_match(em) {
                lemma_put_keeps_well_formed(before, em);
            }
        }
    }

    /// Puts an element into the data set after checking that the kind of
    /// its value is the one that its representation prescribes. An element
    /// that fails the check is refused, and the data set stays as it is.
    pub fn put_checked(&mut self, e: DataElement) -> (r: Result<(), EncodeError>)
        ensures
            match spec_kind_error(e@) {
                Some(x) => r == Err::<(), EncodeError>(x) && final(self)@ == old(self)@,
                None => r is Ok && final(self)@ == spec_put(old(self)@, e@),
            },
            strictly_ordered(old(self)@) ==> strictly_ordered(final(self)@),
    {
        match e.kind_error() {
            Some(x) => Err(x),
            None => {
                self.put(e);
                Ok(())
            },
        }
    }

    /// Removes the first element with tag `tag` and returns it.
    pub fn remove(&mut self, tag: Tag) -> (r: Option<DataElement>)
        ensures
            final(self)@ == spec_remove(old(self)@, tag),
            match r {
                Some(e) => position_of(old(self)@, tag) matches Some(i) && e@ == old(self)@[i],
                None => position_of(old(self)@, tag) is None,
            },
            well_formed(old(self)@) ==> well_formed(final(self)@),
    {
        let ghost before = self@;
        match self.position(&tag) {
            Some(i) => {
                let e = self.elements.remove(i);
                proof {
                    if well_formed(before) {
                        lemma_remove_keeps_well_formed(before, tag);
                    }
                }
                Some(e)
            },
            None => None,
        }
    }

    /// Makes a series of changes, in their order.
    pub fn apply(&mut self, edits: Vec<Edit>)
        ensures
            final(self)@ == apply_edits(old(self)@, edit_models(edits@)),
    {
        let mut edits = edits;
        let ghost all = edit_models(edits@);
        while edits.len() > 0
            invariant
                apply_edits(old(self)@, all) == apply_edits(self@, edit_models(edits@)),
            decreases edits@.len(),
        {
            let ghost before = edit_models(edits@);
            let edit = edits.remove(0);
            assert(edit_models(edits@) =~= before.drop_first());
            match edit {
                Edit::Put(e) => {
                    self.put(e);
                },
                Edit::Remove(t) => {
                    self.remove(t);
                },
            }
        }
    }

    /// Whether the tags of the data set stand in strictly increasing order.
    pub fn is_strictly_ordered(&self) -> (r: bool)
        ensures
            r == strictly_ordered(self@),
    {
        let n = self.elements.len();
        if n < 2 {
            return true;
        }
        let mut i: usize = 1;
        while i < n
            invariant
                1 <= i <= n,
                n == self.elements@.len(),
                n == self@.len(),
                forall|a: int, b: int| 0 <= a < b < i ==> self@[a].tag.key() < self@[b].tag.key(),
            decreases n - i,
        {
            assert(self@[i - 1] == self.elements@[i - 1]@);
            assert(self@[i as int] == self.elements@[i as int]@);
            if !self.elements[i - 1].tag.precedes(&self.elements[i].tag) {
                return false;
            }
            i += 1;
        }
        true
    }
}

} // verus!
