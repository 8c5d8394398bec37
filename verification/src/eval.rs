//! The condition language and its evaluator.
//!
//! A condition is an expression tree over literals, the four request
//! variables, boolean connectives with short-circuit evaluation, equality and
//! ordering, checked integer arithmetic, attribute access, set membership,
//! the hierarchy operator `in`, and the extension predicates on IP
//! addresses. Evaluation is a pure function of the expression, the
//! normalized request and the entity snapshot; faults are reported as
//! `EvaluationError`s, never panics.

use vstd::prelude::*;

use crate::entity::EntityStore;
use crate::entity::SpecStore;
use crate::entity::spec_descendant_or_self;
use crate::entity::spec_resolve;
use crate::error::EvaluationError;
use crate::request::NormalizedRequest;
use crate::request::SpecRequest;
use crate::text::str_lt;
use crate::text::str_lt_spec;
use crate::value::ExtValue;
use crate::value::SpecValue;
use crate::value::Value;
use crate::value::clone_fields;
use crate::value::get_field;
use crate::value::set_contains;
use crate::value::spec_get_field;
use crate::value::spec_set_contains;
use crate::value::sval;
use crate::value::value_clone;
use crate::value::value_eq;

verus! {

/// One of the four request variables an expression can name.
#[derive(Debug, Clone, Copy, PartialEq, Eq)]
pub enum Var {
    Principal,
    Action,
    Resource,
    Context,
}

/// A condition expression. Immutable once built.
#[derive(Debug, PartialEq, Eq)]
pub enum Expr {
    /// A literal value.
    Lit(Value),
    /// A request variable.
    Var(Var),
    Not(Box<Expr>),
    /// Short-circuit conjunction.
    And(Box<Expr>, Box<Expr>),
    /// Short-circuit disjunction.
    Or(Box<Expr>, Box<Expr>),
    /// Structural equality of two values.
    Equals(Box<Expr>, Box<Expr>),
    /// Strict order: on integers numeric, on strings lexicographic.
    Less(Box<Expr>, Box<Expr>),
    LessEq(Box<Expr>, Box<Expr>),
    Add(Box<Expr>, Box<Expr>),
    Sub(Box<Expr>, Box<Expr>),
    Mul(Box<Expr>, Box<Expr>),
    /// Hierarchy membership: the left entity is the right entity or one of
    /// its descendants.
    In(Box<Expr>, Box<Expr>),
    /// Attribute access on an entity or record.
    GetAttr(Box<Expr>, String),
    /// Whether an entity or record carries an attribute.
    HasAttr(Box<Expr>, String),
    /// Set membership.
    Contains(Box<Expr>, Box<Expr>),
    /// Whether an extension value is an IPv4 address.
    IsIpv4(Box<Expr>),
    /// Whether an extension value is an IPv6 address.
    IsIpv6(Box<Expr>),
}

/// The meaning of an expression: the value it evaluates to under the given
/// request and entity snapshot, or the evaluation fault it stops on.
pub open spec fn spec_eval(e: Expr, req: SpecRequest, s: SpecStore) -> Result<
    SpecValue,
    EvaluationError,
>
    decreases e,
{
    match e {
        Expr::Lit(v) => Ok(sval(v)),
        Expr::Var(v) => match v {
            Var::Principal => Ok(SpecValue::Entity(req.principal)),
            Var::Action => Ok(SpecValue::Entity(req.action)),
            Var::Resource => Ok(SpecValue::Entity(req.resource)),
            Var::Context => Ok(SpecValue::Record(req.context)),
        },
        Expr::Not(b) => match spec_eval(*b, req, s) {
            Ok(SpecValue::Bool(x)) => Ok(SpecValue::Bool(!x)),
            Ok(_) => Err(EvaluationError::TypeMismatch),
            Err(k) => Err(k),
        },
        Expr::And(l, r) => match spec_eval(*l, req, s) {
            Ok(SpecValue::Bool(false)) => Ok(SpecValue::Bool(false)),
            Ok(SpecValue::Bool(true)) => match spec_eval(*r, req, s) {
                Ok(SpecValue::Bool(x)) => Ok(SpecValue::Bool(x)),
                Ok(_) => Err(EvaluationError::TypeMismatch),
                Err(k) => Err(k),
            },
            Ok(_) => Err(EvaluationError::TypeMismatch),
            Err(k) => Err(k),
        },
        Expr::Or(l, r) => match spec_eval(*l, req, s) {
            Ok(SpecValue::Bool(true)) => Ok(SpecValue::Bool(true)),
            Ok(SpecValue::Bool(false)) => match spec_eval(*r, req, s) {
                Ok(SpecValue::Bool(x)) => Ok(SpecValue::Bool(x)),
                Ok(_) => Err(EvaluationError::TypeMismatch),
                Err(k) => Err(k),
            },
            Ok(_) => Err(EvaluationError::TypeMismatch),
            Err(k) => Err(k),
        },
        Expr::Equals(l, r) => match (spec_eval(*l, req, s), spec_eval(*r, req, s)) {
            (Err(k), _) => Err(k),
            (Ok(_), Err(k)) => Err(k),
            (Ok(lv), Ok(rv)) => Ok(SpecValue::Bool(lv == rv)),
        },
        Expr::Less(l, r) => match (spec_eval(*l, req, s), spec_eval(*r, req, s)) {
            (Err(k), _) => Err(k),
            (Ok(_), Err(k)) => Err(k),
            (Ok(SpecValue::Long(x)), Ok(SpecValue::Long(y))) => Ok(SpecValue::Bool(x < y)),
            (Ok(SpecValue::Str(a)), Ok(SpecValue::Str(b))) => Ok(
                SpecValue::Bool(str_lt_spec(a, b)),
            ),
            _ => Err(EvaluationError::TypeMismatch),
        },
        Expr::LessEq(l, r) => match (spec_eval(*l, req, s), spec_eval(*r, req, s)) {
            (Err(k), _) => Err(k),
            (Ok(_), Err(k)) => Err(k),
            (Ok(SpecValue::Long(x)), Ok(SpecValue::Long(y))) => Ok(SpecValue::Bool(x <= y)),
            (Ok(SpecValue::Str(a)), Ok(SpecValue::Str(b))) => Ok(
                SpecValue::Bool(str_lt_spec(a, b) || a == b),
            ),
            _ => Err(EvaluationError::TypeMismatch),
        },
        Expr::Add(l, r) => spec_arith(
            spec_eval(*l, req, s),
            spec_eval(*r, req, s),
            ArithOp::AddOp,
        ),
        Expr::Sub(l, r) => spec_arith(
            spec_eval(*l, req, s),
            spec_eval(*r, req, s),
            ArithOp::SubOp,
        ),
        Expr::Mul(l, r) => spec_arith(
            spec_eval(*l, req, s),
            spec_eval(*r, req, s),
            ArithOp::MulOp,
        ),
        Expr::In(l, r) => match (spec_eval(*l, req, s), spec_eval(*r, req, s)) {
            (Err(k), _) => Err(k),
            (Ok(_), Err(k)) => Err(k),
            (Ok(SpecValue::Entity(u1)), Ok(SpecValue::Entity(u2))) => match
                spec_descendant_or_self(s, u1, u2) {
                Ok(t) => Ok(SpecValue::Bool(t)),
                Err(k) => Err(k),
            },
            _ => Err(EvaluationError::TypeMismatch),
        },
        Expr::GetAttr(b, name) => match spec_eval(*b, req, s) {
            Err(k) => Err(k),
            Ok(SpecValue::Entity(u)) => match spec_resolve(s, u) {
                None => Err(EvaluationError::EntityNotFound),
                Some(ent) => match spec_get_field(ent.attrs, name@) {
                    None => Err(EvaluationError::MissingAttribute),
                    Some(v) => Ok(v),
                },
            },
            Ok(SpecValue::Record(fields)) => match spec_get_field(fields, name@) {
                None => Err(EvaluationError::MissingAttribute),
                Some(v) => Ok(v),
            },
            Ok(_) => Err(EvaluationError::TypeMismatch),
        },
        Expr::HasAttr(b, name) => match spec_eval(*b, req, s) {
            Err(k) => Err(k),
            Ok(SpecValue::Entity(u)) => match spec_resolve(s, u) {
                None => Ok(SpecValue::Bool(false)),
                Some(ent) => Ok(SpecValue::Bool(spec_get_field(ent.attrs, name@) is Some)),
            },
            Ok(SpecValue::Record(fields)) => Ok(
                SpecValue::Bool(spec_get_field(fields, name@) is Some),
            ),
            Ok(_) => Err(EvaluationError::TypeMismatch),
        },
        Expr::Contains(l, r) => match (spec_eval(*l, req, s), spec_eval(*r, req, s)) {
            (Err(k), _) => Err(k),
            (Ok(_), Err(k)) => Err(k),
            (Ok(SpecValue::SetOf(elems)), Ok(rv)) => Ok(
                SpecValue::Bool(spec_set_contains(elems, rv)),
            ),
            _ => Err(EvaluationError::TypeMismatch),
        },
        Expr::IsIpv4(b) => match spec_eval(*b, req, s) {
            Err(k) => Err(k),
            Ok(SpecValue::Ext(x)) => Ok(SpecValue::Bool(x is Ipv4)),
            Ok(_) => Err(EvaluationError::TypeMismatch),
        },
        Expr::IsIpv6(b) => match spec_eval(*b, req, s) {
            Err(k) => Err(k),
            Ok(SpecValue::Ext(x)) => Ok(SpecValue::Bool(x is Ipv6)),
            Ok(_) => Err(EvaluationError::TypeMismatch),
        },
    }
}

/// An arithmetic operator of the condition language.
#[derive(Debug, Clone, Copy, PartialEq, Eq)]
pub enum ArithOp {
    AddOp,
    SubOp,
    MulOp,
}

/// Checked 64-bit arithmetic on two evaluated operands: a fault of an
/// operand propagates, non-integers and overflow are type mismatches.
pub open spec fn spec_arith(
    l: Result<SpecValue, EvaluationError>,
    r: Result<SpecValue, EvaluationError>,
    op: ArithOp,
) -> Result<SpecValue, EvaluationError> {
    match (l, r) {
        (Err(k), _) => Err(k),
        (Ok(_), Err(k)) => Err(k),
        (Ok(SpecValue::Long(x)), Ok(SpecValue::Long(y))) => {
            let z = match op {
                ArithOp::AddOp => x + y,
                ArithOp::SubOp => x - y,
                ArithOp::MulOp => x * y,
            };
            if i64::MIN <= z <= i64::MAX {
                Ok(SpecValue::Long(z))
            } else {
                Err(EvaluationError::TypeMismatch)
            }
        },
        _ => Err(EvaluationError::TypeMismatch),
    }
}

/// The image of an evaluation outcome.
pub open spec fn result_view(r: Result<Value, EvaluationError>) -> Result<
    SpecValue,
    EvaluationError,
> {
    match r {
        Ok(v) => Ok(sval(v)),
        Err(k) => Err(k),
    }
}

/// Evaluates an expression against a request and an entity snapshot.
pub fn eval_expr(e: &Expr, req: &NormalizedRequest, s: &EntityStore) -> (r: Result<
    Value,
    EvaluationError,
>)
    ensures
        result_view(r) == spec_eval(*e, req@, s@),
    decreases *e,
{
    match e {
        Expr::Lit(v) => Ok(value_clone(v)),
        Expr::Var(v) => match v {
            Var::Principal => Ok(Value::Entity(req.principal.duplicate())),
            Var::Action => Ok(Value::Entity(req.action.duplicate())),
            Var::Resource => Ok(Value::Entity(req.resource.duplicate())),
            Var::Context => Ok(Value::Record(clone_fields(&req.context))),
        },
        Expr::Not(b) => match eval_expr(b, req, s) {
            Err(k) => Err(k),
            Ok(v) => match v {
                Value::Bool(x) => Ok(Value::Bool(!x)),
                _ => Err(EvaluationError::TypeMismatch),
            },
        },
        Expr::And(l, r) => match eval_expr(l, req, s) {
            Err(k) => Err(k),
            Ok(v) => match v {
                Value::Bool(false) => Ok(Value::Bool(false)),
                Value::Bool(true) => match eval_expr(r, req, s) {
                    Err(k) => Err(k),
                    Ok(w) => match w {
                        Value::Bool(x) => Ok(Value::Bool(x)),
                        _ => Err(EvaluationError::TypeMismatch),
                    },
                },
                _ => Err(EvaluationError::TypeMismatch),
            },
        },
        Expr::Or(l, r) => match eval_expr(l, req, s) {
            Err(k) => Err(k),
            Ok(v) => match v {
                Value::Bool(true) => Ok(Value::Bool(true)),
                Value::Bool(false) => match eval_expr(r, req, s) {
                    Err(k) => Err(k),
                    Ok(w) => match w {
                        Value::Bool(x) => Ok(Value::Bool(x)),
                        _ => Err(EvaluationError::TypeMismatch),
                    },
                },
                _ => Err(EvaluationError::TypeMismatch),
            },
        },
        Expr::Equals(l, r) => match eval_expr(l, req, s) {
            Err(k) => Err(k),
            Ok(lv) => match eval_expr(r, req, s) {
                Err(k) => Err(k),
                Ok(rv) => Ok(Value::Bool(value_eq(&lv, &rv))),
            },
        },
        Expr::Less(l, r) => match eval_expr(l, req, s) {
            Err(k) => Err(k),
            Ok(lv) => match eval_expr(r, req, s) {
                Err(k) => Err(k),
                Ok(rv) => match (lv, rv) {
                    (Value::Long(x), Value::Long(y)) => Ok(Value::Bool(x < y)),
                    (Value::Str(a), Value::Str(b)) => Ok(
                        Value::Bool(str_lt(a.as_str(), b.as_str())),
                    ),
                    _ => Err(EvaluationError::TypeMismatch),
                },
            },
        },
        Expr::LessEq(l, r) => match eval_expr(l, req, s) {
            Err(k) => Err(k),
            Ok(lv) => match eval_expr(r, req, s) {
                Err(k) => Err(k),
                Ok(rv) => match (lv, rv) {
                    (Value::Long(x), Value::Long(y)) => Ok(Value::Bool(x <= y)),
                    (Value::Str(a), Value::Str(b)) => {
                        let lt = str_lt(a.as_str(), b.as_str());
                        let same = a == b;
                        Ok(Value::Bool(lt || same))
                    },
                    _ => Err(EvaluationError::TypeMismatch),
                },
            },
        },
        Expr::Add(l, r) => match eval_expr(l, req, s) {
            Err(k) => Err(k),
            Ok(lv) => match eval_expr(r, req, s) {
                Err(k) => Err(k),
                Ok(rv) => match (lv, rv) {
                    (Value::Long(x), Value::Long(y)) => match x.checked_add(y) {
                        Some(z) => Ok(Value::Long(z)),
                        None => Err(EvaluationError::TypeMismatch),
                    },
                    _ => Err(EvaluationError::TypeMismatch),
                },
            },
        },
        Expr::Sub(l, r) => match eval_expr(l, req, s) {
            Err(k) => Err(k),
            Ok(lv) => match eval_expr(r, req, s) {
                Err(k) => Err(k),
                Ok(rv) => match (lv, rv) {
                    (Value::Long(x), Value::Long(y)) => match x.checked_sub(y) {
                        Some(z) => Ok(Value::Long(z)),
                        None => Err(EvaluationError::TypeMismatch),
                    },
                    _ => Err(EvaluationError::TypeMismatch),
                },
            },
        },
        Expr::Mul(l, r) => match eval_expr(l, req, s) {
            Err(k) => Err(k),
            Ok(lv) => match eval_expr(r, req, s) {
                Err(k) => Err(k),
                Ok(rv) => match (lv, rv) {
                    (Value::Long(x), Value::Long(y)) => match x.checked_mul(y) {
                        Some(z) => Ok(Value::Long(z)),
                        None => Err(EvaluationError::TypeMismatch),
                    },
                    _ => Err(EvaluationError::TypeMismatch),
                },
            },
        },
        Expr::In(l, r) => match eval_expr(l, req, s) {
            Err(k) => Err(k),
            Ok(lv) => match eval_expr(r, req, s) {
                Err(k) => Err(k),
                Ok(rv) => match (lv, rv) {
                    (Value::Entity(u1), Value::Entity(u2)) => match s.is_descendant_or_self(
                        &u1,
                        &u2,
                    ) {
                        Ok(t) => Ok(Value::Bool(t)),
                        Err(k) => Err(k),
                    },
                    _ => Err(EvaluationError::TypeMismatch),
                },
            },
        },
        Expr::GetAttr(b, name) => match eval_expr(b, req, s) {
            Err(k) => Err(k),
            Ok(v) => match v {
                Value::Entity(u) => match s.resolve(&u) {
                    None => Err(EvaluationError::EntityNotFound),
                    Some(ent) => match get_field(&ent.attrs, name) {
                        None => Err(EvaluationError::MissingAttribute),
                        Some(fv) => Ok(value_clone(fv)),
                    },
                },
                Value::Record(fields) => match get_field(&fields, name) {
                    None => Err(EvaluationError::MissingAttribute),
                    Some(fv) => Ok(value_clone(fv)),
                },
                _ => Err(EvaluationError::TypeMismatch),
            },
        },
        Expr::HasAttr(b, name) => match eval_expr(b, req, s) {
            Err(k) => Err(k),
            Ok(v) => match v {
                Value::Entity(u) => match s.resolve(&u) {
                    None => Ok(Value::Bool(false)),
                    Some(ent) => match get_field(&ent.attrs, name) {
                        None => Ok(Value::Bool(false)),
                        Some(_) => Ok(Value::Bool(true)),
                    },
                },
                Value::Record(fields) => match get_field(&fields, name) {
                    None => Ok(Value::Bool(false)),
                    Some(_) => Ok(Value::Bool(true)),
                },
                _ => Err(EvaluationError::TypeMismatch),
            },
        },
        Expr::Contains(l, r) => match eval_expr(l, req, s) {
            Err(k) => Err(k),
            Ok(lv) => match eval_expr(r, req, s) {
                Err(k) => Err(k),
                Ok(rv) => match lv {
                    Value::SetOf(elems) => Ok(Value::Bool(set_contains(&elems, &rv))),
                    _ => Err(EvaluationError::TypeMismatch),
                },
            },
        },
        Expr::IsIpv4(b) => match eval_expr(b, req, s) {
            Err(k) => Err(k),
            Ok(v) => match v {
                Value::Ext(x) => match x {
                    ExtValue::Ipv4(_, _, _, _) => Ok(Value::Bool(true)),
                    _ => Ok(Value::Bool(false)),
                },
                _ => Err(EvaluationError::TypeMismatch),
            },
        },
        Expr::IsIpv6(b) => match eval_expr(b, req, s) {
            Err(k) => Err(k),
            Ok(v) => match v {
                Value::Ext(x) => match x {
                    ExtValue::Ipv6(_, _) => Ok(Value::Bool(true)),
                    _ => Ok(Value::Bool(false)),
                },
                _ => Err(EvaluationError::TypeMismatch),
            },
        },
    }
}

} // verus!
