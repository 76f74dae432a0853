//! Comparing, copying and checking elements: two elements are the same
//! where their models are equal, a copy has the model of what was copied,
//! and a data set passes the check where it is well formed.

use crate::element::dataset_model;
use crate::element::items_model;
use crate::element::kinds_match;
use crate::element::well_formed;
use crate::element::lemma_sequence_model;
use crate::element::DataElement;
use crate::element::DataSet;
use crate::element::PixelSequence;
use crate::element::Value;
use crate::element::ValueModel;
use crate::tag::Tag;
use crate::text::bytes_equal;
use crate::text::views;
use crate::value::PrimitiveValue;
use vstd::prelude::*;

verus! {

fn same_u16(a: &Vec<u16>, b: &Vec<u16>) -> (r: bool)
    ensures
        r == (a@ == b@),
{
    if a.len() != b.len() {
        return false;
    }
    let mut i: usize = 0;
    while i < a.len()
        invariant
            i <= a@.len(),
            a@.len() == b@.len(),
            forall|k: int| 0 <= k < i ==> a@[k] == b@[k],
        decreases a@.len() - i,
    {
        if a[i] != b[i] {
            return false;
        }
        i += 1;
    }
    assert(a@ =~= b@);
    true
}

fn same_i16(a: &Vec<i16>, b: &Vec<i16>) -> (r: bool)
    ensures
        r == (a@ == b@),
{
    if a.len() != b.len() {
        return false;
    }
    let mut i: usize = 0;
    while i < a.len()
        invariant
            i <= a@.len(),
            a@.len() == b@.len(),
            forall|k: int| 0 <= k < i ==> a@[k] == b@[k],
        decreases a@.len() - i,
    {
        if a[i] != b[i] {
            return false;
        }
        i += 1;
    }
    assert(a@ =~= b@);
    true
}

fn same_u32(a: &Vec<u32>, b: &Vec<u32>) -> (r: bool)
    ensures
        r == (a@ == b@),
{
    if a.len() != b.len() {
        return false;
    }
    let mut i: usize = 0;
    while i < a.len()
        invariant
            i <= a@.len(),
            a@.len() == b@.len(),
            forall|k: int| 0 <= k < i ==> a@[k] == b@[k],
        decreases a@.len() - i,
    {
        if a[i] != b[i] {
            return false;
        }
        i += 1;
    }
    assert(a@ =~= b@);
    true
}

fn same_i32(a: &Vec<i32>, b: &Vec<i32>) -> (r: bool)
    ensures
        r == (a@ == b@),
{
    if a.len() != b.len() {
        return false;
    }
    let mut i: usize = 0;
    while i < a.len()
        invariant
            i <= a@.len(),
            a@.len() == b@.len(),
            forall|k: int| 0 <= k < i ==> a@[k] == b@[k],
        decreases a@.len() - i,
    {
        if a[i] != b[i] {
            return false;
        }
        i += 1;
    }
    assert(a@ =~= b@);
    true
}

fn same_u64(a: &Vec<u64>, b: &Vec<u64>) -> (r: bool)
    ensures
        r == (a@ == b@),
{
    if a.len() != b.len() {
        return false;
    }
    let mut i: usize = 0;
    while i < a.len()
        invariant
            i <= a@.len(),
            a@.len() == b@.len(),
            forall|k: int| 0 <= k < i ==> a@[k] == b@[k],
        decreases a@.len() - i,
    {
        if a[i] != b[i] {
            return false;
        }
        i += 1;
    }
    assert(a@ =~= b@);
    true
}

fn same_i64(a: &Vec<i64>, b: &Vec<i64>) -> (r: bool)
    ensures
        r == (a@ == b@),
{
    if a.len() != b.len() {
        return false;
    }
    let mut i: usize = 0;
    while i < a.len()
        invariant
            i <= a@.len(),
            a@.len() == b@.len(),
            forall|k: int| 0 <= k < i ==> a@[k] == b@[k],
        decreases a@.len() - i,
    {
        if a[i] != b[i] {
            return false;
        }
        i += 1;
    }
    assert(a@ =~= b@);
    true
}

fn same_tags(a: &Vec<Tag>, b: &Vec<Tag>) -> (r: bool)
    ensures
        r == (a@ == b@),
{
    if a.len() != b.len() {
        return false;
    }
    let mut i: usize = 0;
    while i < a.len()
        invariant
            i <= a@.len(),
            a@.len() == b@.len(),
            forall|k: int| 0 <= k < i ==> a@[k] == b@[k],
        decreases a@.len() - i,
    {
        if !a[i].same(&b[i]) {
            return false;
        }
        i += 1;
    }
    assert(a@ =~= b@);
    true
}

/// Whether two lists of byte strings hold the same byte strings.
pub fn same_strings(a: &Vec<Vec<u8>>, b: &Vec<Vec<u8>>) -> (r: bool)
    ensures
        r == (views(a@) == views(b@)),
{
    if a.len() != b.len() {
        assert(views(a@).len() != views(b@).len());
        return false;
    }
    let mut i: usize = 0;
    while i < a.len()
        invariant
            i <= a@.len(),
            a@.len() == b@.len(),
            forall|k: int| 0 <= k < i ==> views(a@)[k] == views(b@)[k],
        decreases a@.len() - i,
    {
        if !bytes_equal(a[i].as_slice(), b[i].as_slice()) {
            assert(views(a@)[i as int] != views(b@)[i as int]);
            return false;
        }
        i += 1;
    }
    assert(views(a@) =~= views(b@));
    true
}

/// Whether two primitive values are the same: of the same kind, with the
/// same values in the same order.
pub fn same_primitive(a: &PrimitiveValue, b: &PrimitiveValue) -> (r: bool)
    ensures
        r == (a@ == b@),
{
    match a {
        PrimitiveValue::Strings(x) => match b {
            PrimitiveValue::Strings(y) => same_strings(x, y),
            _ => false,
        },
        PrimitiveValue::Text(x) => match b {
            PrimitiveValue::Text(y) => bytes_equal(x.as_slice(), y.as_slice()),
            _ => false,
        },
        PrimitiveValue::Bytes(x) => match b {
            PrimitiveValue::Bytes(y) => bytes_equal(x.as_slice(), y.as_slice()),
            _ => false,
        },
        PrimitiveValue::U16(x) => match b {
            PrimitiveValue::U16(y) => same_u16(x, y),
            _ => false,
        },
        PrimitiveValue::I16(x) => match b {
            PrimitiveValue::I16(y) => same_i16(x, y),
            _ => false,
        },
        PrimitiveValue::U32(x) => match b {
            PrimitiveValue::U32(y) => same_u32(x, y),
            _ => false,
        },
        PrimitiveValue::I32(x) => match b {
            PrimitiveValue::I32(y) => same_i32(x, y),
            _ => false,
        },
        PrimitiveValue::U64(x) => match b {
            PrimitiveValue::U64(y) => same_u64(x, y),
            _ => false,
        },
        PrimitiveValue::I64(x) => match b {
            PrimitiveValue::I64(y) => same_i64(x, y),
            _ => false,
        },
        PrimitiveValue::F32(x) => match b {
            PrimitiveValue::F32(y) => same_u32(x, y),
            _ => false,
        },
        PrimitiveValue::F64(x) => match b {
            PrimitiveValue::F64(y) => same_u64(x, y),
            _ => false,
        },
        PrimitiveValue::Tags(x) => match b {
            PrimitiveValue::Tags(y) => same_tags(x, y),
            _ => false,
        },
    }
}

/// Whether two elements are the same: the same tag, the same
/// representation and the same value, item for item and fragment for
/// fragment.
pub fn same_element(a: &DataElement, b: &DataElement) -> (r: bool)
    ensures
        r == (a@ == b@),
    decreases a,
{
    a.tag.same(&b.tag) && a.vr == b.vr && same_value(&a.value, &b.value)
}

/// Whether two values are the same.
pub fn same_value(a: &Value, b: &Value) -> (r: bool)
    ensures
        r == (a@ == b@),
    decreases a,
{
    match a {
        Value::Empty => match b {
            Value::Empty => true,
            _ => false,
        },
        Value::Primitive(p) => match b {
            Value::Primitive(q) => same_primitive(p, q),
            _ => false,
        },
        Value::PixelSequence(p) => match b {
            Value::PixelSequence(q) => {
                let tables = bytes_equal(p.offset_table.as_slice(), q.offset_table.as_slice());
                let fragments = same_strings(&p.fragments, &q.fragments);
                tables && fragments
            },
            _ => false,
        },
        Value::Sequence(x) => match b {
            Value::Sequence(y) => {
                proof {
                    lemma_sequence_model(*x);
                    lemma_sequence_model(*y);
                }
                if x.len() != y.len() {
                    assert(items_model(x@).len() != items_model(y@).len());
                    return false;
                }
                let mut i: usize = 0;
                while i < x.len()
                    invariant
                        i <= x@.len(),
                        x@.len() == y@.len(),
                        a is Sequence,
                        a->Sequence_0 == *x,
                        a@ == ValueModel::Sequence(items_model(x@)),
                        b@ == ValueModel::Sequence(items_model(y@)),
                        forall|k: int| 0 <= k < i ==> items_model(x@)[k] == items_model(y@)[k],
                    decreases x@.len() - i,
                {
                    if !same_dataset(&x[i], &y[i]) {
                        assert(items_model(x@)[i as int] != items_model(y@)[i as int]);
                        return false;
                    }
                    i += 1;
                }
                assert(items_model(x@) =~= items_model(y@));
                true
            },
            _ => false,
        },
    }
}

/// Whether two data sets are the same: the same elements in the same
/// order.
pub fn same_dataset(a: &DataSet, b: &DataSet) -> (r: bool)
    ensures
        r == (a@ == b@),
    decreases a,
{
    if a.elements.len() != b.elements.len() {
        assert(a@.len() != b@.len());
        return false;
    }
    let mut i: usize = 0;
    while i < a.elements.len()
        invariant
            i <= a.elements@.len(),
            a.elements@.len() == b.elements@.len(),
            a@.len() == a.elements@.len(),
            b@.len() == b.elements@.len(),
            forall|k: int| 0 <= k < i ==> a@[k] == b@[k],
        decreases a.elements@.len() - i,
    {
        assert(a@[i as int] == a.elements@[i as int]@);
        if !same_element(&a.elements[i], &b.elements[i]) {
            return false;
        }
        i += 1;
    }
    assert(a@ =~= b@);
    true
}

fn copy_of<T: Copy>(v: &Vec<T>) -> (out: Vec<T>)
    ensures
        out@ == v@,
{
    let mut out: Vec<T> = Vec::new();
    let mut i: usize = 0;
    while i < v.len()
        invariant
            i <= v@.len(),
            out@ == v@.subrange(0, i as int),
        decreases v@.len() - i,
    {
        out.push(v[i]);
        i += 1;
    }
    out
}

/// A copy of a list of byte strings.
pub fn copy_strings(v: &Vec<Vec<u8>>) -> (out: Vec<Vec<u8>>)
    ensures
        views(out@) == views(v@),
{
    let mut out: Vec<Vec<u8>> = Vec::new();
    let mut i: usize = 0;
    while i < v.len()
        invariant
            i <= v@.len(),
            out@.len() == i,
            forall|k: int| 0 <= k < i ==> out@[k]@ == v@[k]@,
        decreases v@.len() - i,
    {
        out.push(copy_of(&v[i]));
        i += 1;
    }
    out
}

/// A copy of a primitive value.
pub fn copy_primitive(p: &PrimitiveValue) -> (out: PrimitiveValue)
    ensures
        out@ == p@,
{
    match p {
        PrimitiveValue::Strings(v) => PrimitiveValue::Strings(copy_strings(v)),
        PrimitiveValue::Text(v) => PrimitiveValue::Text(copy_of(v)),
        PrimitiveValue::Bytes(v) => PrimitiveValue::Bytes(copy_of(v)),
        PrimitiveValue::U16(v) => PrimitiveValue::U16(copy_of(v)),
        PrimitiveValue::I16(v) => PrimitiveValue::I16(copy_of(v)),
        PrimitiveValue::U32(v) => PrimitiveValue::U32(copy_of(v)),
        PrimitiveValue::I32(v) => PrimitiveValue::I32(copy_of(v)),
        PrimitiveValue::U64(v) => PrimitiveValue::U64(copy_of(v)),
        PrimitiveValue::I64(v) => PrimitiveValue::I64(copy_of(v)),
        PrimitiveValue::F32(v) => PrimitiveValue::F32(copy_of(v)),
        PrimitiveValue::F64(v) => PrimitiveValue::F64(copy_of(v)),
        PrimitiveValue::Tags(v) => PrimitiveValue::Tags(copy_of(v)),
    }
}

/// A copy of an element, with copies of all the items below it.
pub fn copy_element(e: &DataElement) -> (out: DataElement)
    ensures
        out@ == e@,
    decreases e,
{
    DataElement { tag: e.tag, vr: e.vr, value: copy_value(&e.value) }
}

/// A copy of a value.
pub fn copy_value(v: &Value) -> (out: Value)
    ensures
        out@ == v@,
    decreases v,
{
    match v {
        Value::Empty => Value::Empty,
        Value::Primitive(p) => Value::Primitive(copy_primitive(p)),
        Value::PixelSequence(p) => Value::PixelSequence(
            PixelSequence {
                offset_table: copy_of(&p.offset_table),
                fragments: copy_strings(&p.fragments),
            },
        ),
        Value::Sequence(items) => {
            let mut out: Vec<DataSet> = Vec::new();
            let mut i: usize = 0;
            while i < items.len()
                invariant
                    i <= items@.len(),
                    v is Sequence,
                    v->Sequence_0 == *items,
                    out@.len() == i,
                    forall|k: int| 0 <= k < i ==> dataset_model(out@[k]) == dataset_model(items@[k]),
                decreases items@.len() - i,
            {
                out.push(copy_dataset(&items[i]));
                i += 1;
            }
            proof {
                lemma_sequence_model(*items);
                lemma_sequence_model(out);
                assert(items_model(out@) =~= items_model(items@));
            }
            Value::Sequence(out)
        },
    }
}

/// A copy of a data set.
pub fn copy_dataset(ds: &DataSet) -> (out: DataSet)
    ensures
        out@ == ds@,
    decreases ds,
{
    let mut elements: Vec<DataElement> = Vec::new();
    let mut i: usize = 0;
    while i < ds.elements.len()
        invariant
            i <= ds.elements@.len(),
            elements@.len() == i,
            forall|k: int| 0 <= k < i ==> elements@[k]@ == ds.elements@[k]@,
        decreases ds.elements@.len() - i,
    {
        elements.push(copy_element(&ds.elements[i]));
        i += 1;
    }
    let out = DataSet { elements };
    out
}

/// Whether the value of an element is of the kind that its representation
/// prescribes, and every item below it is well formed.
pub fn element_is_well_formed(e: &DataElement) -> (r: bool)
    ensures
        r == kinds_match(e@),
    decreases e,
{
    if !e.kind_matches() {
        return false;
    }
    value_is_well_formed(&e.value)
}

/// Whether every item of a sequence value is well formed; true of any
/// other value.
fn value_is_well_formed(v: &Value) -> (r: bool)
    ensures
        r == (v@ matches ValueModel::Sequence(items) ==> forall|i: int|
            0 <= i < items.len() ==> well_formed(#[trigger] items[i])),
    decreases v,
{
    match v {
        Value::Sequence(items) => {
            proof {
                lemma_sequence_model(*items);
            }
            let mut i: usize = 0;
            while i < items.len()
                invariant
                    i <= items@.len(),
                    v is Sequence,
                    v->Sequence_0 == *items,
                    v@ == ValueModel::Sequence(items_model(items@)),
                    forall|k: int| 0 <= k < i ==> well_formed(#[trigger] items_model(items@)[k]),
                decreases items@.len() - i,
            {
                if !dataset_is_well_formed(&items[i]) {
                    proof {
                        let m = items_model(items@);
                        assert(v@->Sequence_0 == m);
                        assert(m[i as int] == dataset_model(items@[i as int]));
                    }
                    return false;
                }
                i += 1;
            }
            true
        },
        _ => true,
    }
}

/// Whether a data set is well formed: its tags stand in strictly increasing
/// order and the value of every element is of the kind that its
/// representation prescribes, in the data set and in every item below it.
pub fn dataset_is_well_formed(ds: &DataSet) -> (r: bool)
    ensures
        r == well_formed(ds@),
    decreases ds,
{
    if !ds.is_strictly_ordered() {
        return false;
    }
    let mut i: usize = 0;
    while i < ds.elements.len()
        invariant
            i <= ds.elements@.len(),
            ds@.len() == ds.elements@.len(),
            crate::element::strictly_ordered(ds@),
            forall|k: int| 0 <= k < i ==> kinds_match(#[trigger] ds@[k]),
        decreases ds.elements@.len() - i,
    {
        assert(ds@[i as int] == ds.elements@[i as int]@);
        if !element_is_well_formed(&ds.elements[i]) {
            return false;
        }
        i += 1;
    }
    true
}

} // verus!
