//! Typed runtime values.
//!
//! Entity attributes, request context fields and condition expressions all
//! work on `Value`: a tagged union over booleans, 64-bit integers, strings,
//! sets, records, entity references and structured extension values (IP
//! address, fixed-point decimal). Values are immutable and structurally
//! compared; there is no implicit coercion between scalar kinds.

use vstd::prelude::*;

use crate::entity::EntityUID;
use crate::entity::SpecUid;

verus! {

/// A structured extension value.
#[derive(Debug, Clone, Copy, PartialEq, Eq)]
pub enum ExtValue {
    /// An IPv4 address as its four octets.
    Ipv4(u8, u8, u8, u8),
    /// An IPv6 address as the high and low halves of its 128 bits.
    Ipv6(u64, u64),
    /// A fixed-point decimal: the value scaled by ten thousand.
    Decimal(i64),
}

/// A typed runtime value.
#[derive(Debug, PartialEq, Eq)]
pub enum Value {
    Bool(bool),
    Long(i64),
    Str(String),
    /// A set of values. Two sets are equal when they hold the same values in
    /// the same order.
    SetOf(Vec<Value>),
    /// A record: named fields in a fixed order.
    Record(Vec<(String, Value)>),
    /// A reference to an entity.
    Entity(EntityUID),
    Ext(ExtValue),
}

/// Mathematical image of an `ExtValue`.
pub ghost enum SpecExt {
    Ipv4(u8, u8, u8, u8),
    Ipv6(u64, u64),
    Decimal(int),
}

/// Mathematical image of a `Value`: strings as character sequences, sets and
/// records as sequences.
pub ghost enum SpecValue {
    Bool(bool),
    Long(int),
    Str(Seq<char>),
    SetOf(Seq<SpecValue>),
    Record(Seq<(Seq<char>, SpecValue)>),
    Entity(SpecUid),
    Ext(SpecExt),
}

pub open spec fn sext(e: ExtValue) -> SpecExt {
    match e {
        ExtValue::Ipv4(a, b, c, d) => SpecExt::Ipv4(a, b, c, d),
        ExtValue::Ipv6(hi, lo) => SpecExt::Ipv6(hi, lo),
        ExtValue::Decimal(d) => SpecExt::Decimal(d as int),
    }
}

/// The mathematical image of a value.
pub open spec fn sval(v: Value) -> SpecValue
    decreases v, 0int,
{
    match v {
        Value::Bool(b) => SpecValue::Bool(b),
        Value::Long(i) => SpecValue::Long(i as int),
        Value::Str(s) => SpecValue::Str(s@),
        Value::SetOf(elems) => SpecValue::SetOf(svals(elems, 0)),
        Value::Record(fields) => SpecValue::Record(sfields(fields, 0)),
        Value::Entity(u) => SpecValue::Entity(u@),
        Value::Ext(e) => SpecValue::Ext(sext(e)),
    }
}

/// The images of the elements of `elems` from index `i` on.
pub open spec fn svals(elems: Vec<Value>, i: int) -> Seq<SpecValue>
    decreases elems, elems@.len() - i,
{
    if i < 0 || i >= elems@.len() {
        Seq::empty()
    } else {
        seq![sval(elems[i])] + svals(elems, i + 1)
    }
}

/// The images of the fields of `fields` from index `i` on.
pub open spec fn sfields(fields: Vec<(String, Value)>, i: int) -> Seq<(Seq<char>, SpecValue)>
    decreases fields, fields@.len() - i,
{
    if i < 0 || i >= fields@.len() {
        Seq::empty()
    } else {
        seq![(fields[i].0@, sval(fields[i].1))] + sfields(fields, i + 1)
    }
}

impl View for ExtValue {
    type V = SpecExt;

    open spec fn view(&self) -> SpecExt {
        sext(*self)
    }
}

impl View for Value {
    type V = SpecValue;

    open spec fn view(&self) -> SpecValue {
        sval(*self)
    }
}

pub proof fn lemma_svals_index(elems: Vec<Value>, i: int)
    requires
        0 <= i <= elems@.len(),
    ensures
        svals(elems, i).len() == elems@.len() - i,
        forall|k: int|
            0 <= k < elems@.len() - i ==> svals(elems, i)[k] == sval(elems@[i + k]),
    decreases elems@.len() - i,
{
    if i < elems@.len() {
        lemma_svals_index(elems, i + 1);
    }
}

pub proof fn lemma_sfields_index(fields: Vec<(String, Value)>, i: int)
    requires
        0 <= i <= fields@.len(),
    ensures
        sfields(fields, i).len() == fields@.len() - i,
        forall|k: int|
            0 <= k < fields@.len() - i ==> sfields(fields, i)[k] == (
            fields@[i + k].0@,
            sval(fields@[i + k].1),
            ),
    decreases fields@.len() - i,
{
    if i < fields@.len() {
        lemma_sfields_index(fields, i + 1);
    }
}

/// Whether the set with elements `elems` holds the value `x`.
pub open spec fn spec_set_contains(elems: Seq<SpecValue>, x: SpecValue) -> bool {
    exists|j: int| 0 <= j < elems.len() && elems[j] == x
}

/// The value of the first field named `name`, if any.
pub open spec fn spec_get_field(
    fields: Seq<(Seq<char>, SpecValue)>,
    name: Seq<char>,
) -> Option<SpecValue>
    decreases fields.len(),
{
    if fields.len() == 0 {
        None
    } else if fields[0].0 == name {
        Some(fields[0].1)
    } else {
        spec_get_field(fields.drop_first(), name)
    }
}

/// Structural equality of two values.
pub fn value_eq(a: &Value, b: &Value) -> (r: bool)
    ensures
        r == (a@ == b@),
    decreases *a, 0int,
{
    match (a, b) {
        (Value::Bool(x), Value::Bool(y)) => {
            let r = *x == *y;
            assert(r == (a@ == b@));
            r
        },
        (Value::Long(x), Value::Long(y)) => {
            let r = *x == *y;
            assert(r == (a@ == b@));
            r
        },
        (Value::Str(x), Value::Str(y)) => {
            let r = *x == *y;
            assert(r == (a@ == b@));
            r
        },
        (Value::Entity(x), Value::Entity(y)) => {
            let r = x.same_as(y);
            assert(r == (a@ == b@));
            r
        },
        (Value::Ext(x), Value::Ext(y)) => {
            let r = ext_eq(x, y);
            assert(r == (a@ == b@));
            r
        },
        (Value::SetOf(x), Value::SetOf(y)) => {
            let r = values_eq(x, y);
            assert(r == (a@ == b@));
            r
        },
        (Value::Record(x), Value::Record(y)) => {
            let r = fields_eq(x, y);
            assert(r == (a@ == b@));
            r
        },
        _ => {
            assert(a@ != b@);
            false
        },
    }
}

/// Structural equality of two extension values.
pub fn ext_eq(a: &ExtValue, b: &ExtValue) -> (r: bool)
    ensures
        r == (a@ == b@),
{
    match (a, b) {
        (ExtValue::Ipv4(a0, a1, a2, a3), ExtValue::Ipv4(b0, b1, b2, b3)) => {
            *a0 == *b0 && *a1 == *b1 && *a2 == *b2 && *a3 == *b3
        },
        (ExtValue::Ipv6(ah, al), ExtValue::Ipv6(bh, bl)) => *ah == *bh && *al == *bl,
        (ExtValue::Decimal(x), ExtValue::Decimal(y)) => *x == *y,
        _ => {
            assert(a@ != b@);
            false
        },
    }
}

fn values_eq(x: &Vec<Value>, y: &Vec<Value>) -> (r: bool)
    ensures
        r == (svals(*x, 0) == svals(*y, 0)),
    decreases *x, 1int,
{
    proof {
        lemma_svals_index(*x, 0);
        lemma_svals_index(*y, 0);
    }
    if x.len() != y.len() {
        return false;
    }
    let n = x.len();
    let mut i: usize = 0;
    while i < n
        invariant
            n == x@.len() == y@.len(),
            0 <= i <= n,
            forall|j: int| 0 <= j < i ==> sval(x@[j]) == sval(y@[j]),
            svals(*x, 0).len() == n,
            svals(*y, 0).len() == n,
            forall|k: int| 0 <= k < n ==> svals(*x, 0)[k] == sval(x@[k]),
            forall|k: int| 0 <= k < n ==> svals(*y, 0)[k] == sval(y@[k]),
        decreases n - i,
    {
        let same = value_eq(&x[i], &y[i]);
        if !same {
            assert(svals(*x, 0)[i as int] != svals(*y, 0)[i as int]);
            return false;
        }
        i = i + 1;
    }
    proof {
        assert(svals(*x, 0) =~= svals(*y, 0));
    }
    true
}

fn fields_eq(x: &Vec<(String, Value)>, y: &Vec<(String, Value)>) -> (r: bool)
    ensures
        r == (sfields(*x, 0) == sfields(*y, 0)),
    decreases *x, 1int,
{
    proof {
        lemma_sfields_index(*x, 0);
        lemma_sfields_index(*y, 0);
    }
    if x.len() != y.len() {
        return false;
    }
    let n = x.len();
    let mut i: usize = 0;
    while i < n
        invariant
            n == x@.len() == y@.len(),
            0 <= i <= n,
            forall|j: int|
                0 <= j < i ==> x@[j].0@ == y@[j].0@ && sval(x@[j].1) == sval(y@[j].1),
            sfields(*x, 0).len() == n,
            sfields(*y, 0).len() == n,
            forall|k: int|
                0 <= k < n ==> sfields(*x, 0)[k] == (x@[k].0@, sval(x@[k].1)),
            forall|k: int|
                0 <= k < n ==> sfields(*y, 0)[k] == (y@[k].0@, sval(y@[k].1)),
        decreases n - i,
    {
        let keys_same = x[i].0 == y[i].0;
        if !keys_same {
            assert(sfields(*x, 0)[i as int] != sfields(*y, 0)[i as int]);
            return false;
        }
        let vals_same = value_eq(&x[i].1, &y[i].1);
        if !vals_same {
            assert(sfields(*x, 0)[i as int] != sfields(*y, 0)[i as int]);
            return false;
        }
        i = i + 1;
    }
    proof {
        assert(sfields(*x, 0) =~= sfields(*y, 0));
    }
    true
}

/// Whether the set with elements `elems` holds a value structurally equal to
/// `x`.
pub fn set_contains(elems: &Vec<Value>, x: &Value) -> (r: bool)
    ensures
        r == spec_set_contains(svals(*elems, 0), x@),
{
    proof {
        lemma_svals_index(*elems, 0);
    }
    let n = elems.len();
    let mut i: usize = 0;
    while i < n
        invariant
            n == elems@.len(),
            0 <= i <= n,
            forall|j: int| 0 <= j < i ==> sval(elems@[j]) != x@,
            svals(*elems, 0).len() == n,
            forall|k: int| 0 <= k < n ==> svals(*elems, 0)[k] == sval(elems@[k]),
        decreases n - i,
    {
        if value_eq(&elems[i], x) {
            assert(svals(*elems, 0)[i as int] == x@);
            return true;
        }
        i = i + 1;
    }
    false
}

/// Looks a field up in a record's field list: the first field named `name`,
/// or `None` when the record does not carry the name.
pub fn get_field<'a>(fields: &'a Vec<(String, Value)>, name: &String) -> (r: Option<
    &'a Value,
>)
    ensures
        match r {
            Some(v) => spec_get_field(sfields(*fields, 0), name@) == Some(v@),
            None => spec_get_field(sfields(*fields, 0), name@) is None,
        },
{
    proof {
        lemma_sfields_index(*fields, 0);
    }
    let ghost full = sfields(*fields, 0);
    proof {
        assert(full.skip(0) =~= full);
    }
    let n = fields.len();
    let mut i: usize = 0;
    while i < n
        invariant
            n == fields@.len(),
            0 <= i <= n,
            full == sfields(*fields, 0),
            full.len() == n,
            forall|k: int| 0 <= k < n ==> full[k] == (fields@[k].0@, sval(fields@[k].1)),
            spec_get_field(full.skip(i as int), name@) == spec_get_field(full, name@),
        decreases n - i,
    {
        if fields[i].0 == *name {
            assert(full.skip(i as int)[0] == (fields@[i as int].0@, sval(fields@[i as int].1)));
            return Some(&fields[i].1);
        }
        proof {
            assert(full.skip(i as int).drop_first() =~= full.skip(i as int + 1));
            assert(full.skip(i as int)[0] == (fields@[i as int].0@, sval(fields@[i as int].1)));
        }
        i = i + 1;
    }
    proof {
        assert(full.skip(n as int) =~= Seq::empty());
    }
    None
}

/// A deep copy: the copy has the same mathematical image as the original.
pub fn value_clone(v: &Value) -> (r: Value)
    ensures
        r@ == v@,
    decreases *v, 0int,
{
    match v {
        Value::Bool(b) => Value::Bool(*b),
        Value::Long(i) => Value::Long(*i),
        Value::Str(s) => Value::Str(s.clone()),
        Value::Entity(u) => Value::Entity(u.duplicate()),
        Value::Ext(e) => Value::Ext(e.clone()),
        Value::SetOf(elems) => Value::SetOf(clone_values(elems)),
        Value::Record(fields) => Value::Record(clone_fields(fields)),
    }
}

pub(crate) fn clone_values(elems: &Vec<Value>) -> (r: Vec<Value>)
    ensures
        svals(r, 0) == svals(*elems, 0),
    decreases *elems, 1int,
{
    proof {
        lemma_svals_index(*elems, 0);
    }
    let n = elems.len();
    let mut out: Vec<Value> = Vec::new();
    let mut i: usize = 0;
    while i < n
        invariant
            n == elems@.len(),
            0 <= i <= n,
            out@.len() == i,
            forall|j: int| 0 <= j < i ==> sval(out@[j]) == sval(elems@[j]),
        decreases n - i,
    {
        let c = value_clone(&elems[i]);
        out.push(c);
        i = i + 1;
    }
    proof {
        lemma_svals_index(out, 0);
        assert(svals(out, 0) =~= svals(*elems, 0));
    }
    out
}

pub(crate) fn clone_fields(fields: &Vec<(String, Value)>) -> (r: Vec<(String, Value)>)
    ensures
        sfields(r, 0) == sfields(*fields, 0),
    decreases *fields, 1int,
{
    proof {
        lemma_sfields_index(*fields, 0);
    }
    let n = fields.len();
    let mut out: Vec<(String, Value)> = Vec::new();
    let mut i: usize = 0;
    while i < n
        invariant
            n == fields@.len(),
            0 <= i <= n,
            out@.len() == i,
            forall|j: int|
                0 <= j < i ==> out@[j].0@ == fields@[j].0@ && sval(out@[j].1) == sval(
                fields@[j].1),
        decreases n - i,
    {
        let k = fields[i].0.clone();
        let c = value_clone(&fields[i].1);
        out.push((k, c));
        i = i + 1;
    }
    proof {
        lemma_sfields_index(out, 0);
        assert(sfields(out, 0) =~= sfields(*fields, 0));
    }
    out
}

} // verus!
