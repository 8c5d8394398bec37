//! Structured input: a JSON-like tree from which typed values are built.
//!
//! The boundary hands attribute and context data to the engine in this
//! shape; `from_input` turns it into a `Value` or fails with a `TypeError`
//! on an ambiguous or unsupported shape (an unknown extension function, an
//! argument no extension grammar accepts, a record with a repeated key).

use vstd::prelude::*;

use crate::error::ValueError;
use crate::extension::parse_decimal;
use crate::extension::parse_ip;
use crate::extension::spec_parse_decimal;
use crate::extension::spec_parse_ip;
use crate::value::ExtValue;
use crate::value::SpecExt;
use crate::value::SpecValue;
use crate::value::Value;
use crate::value::lemma_sfields_index;
use crate::value::lemma_svals_index;
use crate::value::sfields;
use crate::value::sval;
use crate::value::svals;

verus! {

/// A JSON-like input tree.
#[derive(Debug, PartialEq, Eq)]
pub enum InputValue {
    Bool(bool),
    Int(i64),
    Str(String),
    /// A set literal.
    List(Vec<InputValue>),
    /// A record literal: named fields.
    Rec(Vec<(String, InputValue)>),
    /// An extension literal: the extension function name (`ip` or
    /// `decimal`) and its string argument.
    Ext(String, String),
}

/// Whether the field names of `fs` are pairwise distinct.
pub open spec fn distinct_keys(fs: Vec<(String, InputValue)>) -> bool {
    forall|i: int, j: int|
        0 <= i < j < fs@.len() ==> (#[trigger] fs@[i]).0@ != (#[trigger] fs@[j]).0@
}

/// The value a structured input denotes, or the fault in its shape.
pub open spec fn spec_from_input(iv: InputValue) -> Result<SpecValue, ValueError>
    decreases iv, 0int,
{
    match iv {
        InputValue::Bool(b) => Ok(SpecValue::Bool(b)),
        InputValue::Int(i) => Ok(SpecValue::Long(i as int)),
        InputValue::Str(s) => Ok(SpecValue::Str(s@)),
        InputValue::List(xs) => match spec_from_list(xs, 0) {
            Ok(vals) => Ok(SpecValue::SetOf(vals)),
            Err(k) => Err(k),
        },
        InputValue::Rec(fs) => if !distinct_keys(fs) {
            Err(ValueError::TypeError)
        } else {
            match spec_from_fields(fs, 0) {
                Ok(fl) => Ok(SpecValue::Record(fl)),
                Err(k) => Err(k),
            }
        },
        InputValue::Ext(func, arg) => if func@ == "ip"@ {
            match spec_parse_ip(arg@) {
                Some(e) => Ok(SpecValue::Ext(e)),
                None => Err(ValueError::TypeError),
            }
        } else if func@ == "decimal"@ {
            match spec_parse_decimal(arg@) {
                Some(d) => Ok(SpecValue::Ext(SpecExt::Decimal(d as int))),
                None => Err(ValueError::TypeError),
            }
        } else {
            Err(ValueError::TypeError)
        },
    }
}

/// The values the inputs of `xs` denote from index `i` on, or the first
/// fault.
pub open spec fn spec_from_list(xs: Vec<InputValue>, i: int) -> Result<Seq<SpecValue>, ValueError>
    decreases xs, xs@.len() - i,
{
    if i < 0 || i >= xs@.len() {
        Ok(Seq::empty())
    } else {
        match spec_from_input(xs[i]) {
            Err(k) => Err(k),
            Ok(v) => match spec_from_list(xs, i + 1) {
                Err(k) => Err(k),
                Ok(rest) => Ok(seq![v] + rest),
            },
        }
    }
}

/// The fields the inputs of `fs` denote from index `i` on, or the first
/// fault.
pub open spec fn spec_from_fields(fs: Vec<(String, InputValue)>, i: int) -> Result<
    Seq<(Seq<char>, SpecValue)>,
    ValueError,
>
    decreases fs, fs@.len() - i,
{
    if i < 0 || i >= fs@.len() {
        Ok(Seq::empty())
    } else {
        match spec_from_input(fs[i].1) {
            Err(k) => Err(k),
            Ok(v) => match spec_from_fields(fs, i + 1) {
                Err(k) => Err(k),
                Ok(rest) => Ok(seq![(fs[i].0@, v)] + rest),
            },
        }
    }
}

/// Builds a typed value from a structured input.
pub fn from_input(iv: &InputValue) -> (r: Result<Value, ValueError>)
    ensures
        match r {
            Ok(v) => spec_from_input(*iv) == Ok::<SpecValue, ValueError>(v@),
            Err(k) => spec_from_input(*iv) == Err::<SpecValue, ValueError>(k),
        },
    decreases *iv, 0int,
{
    match iv {
        InputValue::Bool(b) => Ok(Value::Bool(*b)),
        InputValue::Int(i) => Ok(Value::Long(*i)),
        InputValue::Str(s) => Ok(Value::Str(s.clone())),
        InputValue::List(xs) => match from_list(xs, 0) {
            Err(k) => Err(k),
            Ok(vals) => Ok(Value::SetOf(vals)),
        },
        InputValue::Rec(fs) => {
            if !keys_distinct(fs) {
                return Err(ValueError::TypeError);
            }
            match from_fields(fs, 0) {
                Err(k) => Err(k),
                Ok(fl) => Ok(Value::Record(fl)),
            }
        },
        InputValue::Ext(func, arg) => {
            let ip_name: String = "ip".to_owned();
            let dec_name: String = "decimal".to_owned();
            if *func == ip_name {
                match parse_ip(arg.as_str()) {
                    Some(e) => Ok(Value::Ext(e)),
                    None => Err(ValueError::TypeError),
                }
            } else if *func == dec_name {
                match parse_decimal(arg.as_str()) {
                    Some(d) => Ok(Value::Ext(ExtValue::Decimal(d))),
                    None => Err(ValueError::TypeError),
                }
            } else {
                Err(ValueError::TypeError)
            }
        },
    }
}

/// Whether the field names of `fs` are pairwise distinct.
pub fn keys_distinct(fs: &Vec<(String, InputValue)>) -> (r: bool)
    ensures
        r == distinct_keys(*fs),
{
    let n = fs.len();
    let mut i: usize = 0;
    while i < n
        invariant
            n == fs@.len(),
            0 <= i <= n,
            forall|a: int, b: int|
                0 <= a < b < n && a < i ==> (#[trigger] fs@[a]).0@ != (#[trigger] fs@[b]).0@,
        decreases n - i,
    {
        let mut j: usize = i + 1;
        while j < n
            invariant
                n == fs@.len(),
                0 <= i < j <= n,
                forall|b: int| i < b < j ==> fs@[i as int].0@ != (#[trigger] fs@[b]).0@,
            decreases n - j,
        {
            if fs[i].0 == fs[j].0 {
                return false;
            }
            j = j + 1;
        }
        i = i + 1;
    }
    true
}

pub fn from_list(xs: &Vec<InputValue>, i: usize) -> (r: Result<Vec<Value>, ValueError>)
    requires
        i <= xs@.len(),
    ensures
        match r {
            Ok(vs) => spec_from_list(*xs, i as int) == Ok::<Seq<SpecValue>, ValueError>(
                svals(vs, 0),
            ),
            Err(k) => spec_from_list(*xs, i as int) == Err::<Seq<SpecValue>, ValueError>(k),
        },
    decreases *xs, xs@.len() - i, 1int,
{
    if i >= xs.len() {
        let empty: Vec<Value> = Vec::new();
        proof {
            lemma_svals_index(empty, 0);
            assert(svals(empty, 0) =~= Seq::<SpecValue>::empty());
        }
        return Ok(empty);
    }
    let v = match from_input(&xs[i]) {
        Err(k) => {
            return Err(k);
        },
        Ok(v) => v,
    };
    let mut rest = match from_list(xs, i + 1) {
        Err(k) => {
            return Err(k);
        },
        Ok(rest) => rest,
    };
    let ghost restv = rest;
    rest.insert(0, v);
    proof {
        lemma_svals_index(rest, 0);
        lemma_svals_index(restv, 0);
        assert(rest@[0] == v);
        assert(forall|k: int| 0 <= k < restv@.len() ==> rest@[k + 1] == restv@[k]);
        assert(svals(rest, 0) =~= seq![sval(v)] + svals(restv, 0));
    }
    Ok(rest)
}

pub fn from_fields(fs: &Vec<(String, InputValue)>, i: usize) -> (r: Result<
    Vec<(String, Value)>,
    ValueError,
>)
    requires
        i <= fs@.len(),
    ensures
        match r {
            Ok(fl) => spec_from_fields(*fs, i as int) == Ok::<
                Seq<(Seq<char>, SpecValue)>,
                ValueError,
            >(sfields(fl, 0)),
            Err(k) => spec_from_fields(*fs, i as int) == Err::<
                Seq<(Seq<char>, SpecValue)>,
                ValueError,
            >(k),
        },
    decreases *fs, fs@.len() - i, 1int,
{
    if i >= fs.len() {
        let empty: Vec<(String, Value)> = Vec::new();
        proof {
            lemma_sfields_index(empty, 0);
            assert(sfields(empty, 0) =~= Seq::<(Seq<char>, SpecValue)>::empty());
        }
        return Ok(empty);
    }
    let v = match from_input(&fs[i].1) {
        Err(k) => {
            return Err(k);
        },
        Ok(v) => v,
    };
    let name = fs[i].0.clone();
    let mut rest = match from_fields(fs, i + 1) {
        Err(k) => {
            return Err(k);
        },
        Ok(rest) => rest,
    };
    let ghost restv = rest;
    rest.insert(0, (name, v));
    proof {
        lemma_sfields_index(rest, 0);
        lemma_sfields_index(restv, 0);
        assert(rest@[0].0@ == fs@[i as int].0@ && sval(rest@[0].1) == sval(v));
        assert(forall|k: int| 0 <= k < restv@.len() ==> rest@[k + 1] == restv@[k]);
        assert(sfields(rest, 0) =~= seq![(fs@[i as int].0@, sval(v))] + sfields(restv, 0));
    }
    Ok(rest)
}

} // verus!
