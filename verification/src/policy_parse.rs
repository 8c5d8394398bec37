//! Building policies from structured input.
//!
//! A stored policy arrives as a JSON-like tree: a record with an `effect`
//! field, optional `principal`/`action`/`resource` scope fields (absent
//! means unconstrained), and optional `when`/`unless` condition trees. A
//! scope is `"any"`, `{"eq": uid}`, `{"in": uid}` or `{"in_set": [uid..]}`
//! with entity identities written `Type::"id"`. A condition tree is a
//! one-key record per operator: `{"var": ..}`, `{"lit": ..}`,
//! `{"entity": ..}`, `{"not": ..}`, `{"and": [l, r]}` and the other binary
//! operators, `{"getattr": [e, name]}`, `{"hasattr": [e, name]}`,
//! `{"is_ipv4": e}`, `{"is_ipv6": e}`. A wrong shape is a syntax fault; an
//! unknown key, effect or scope form is a semantic fault.

use vstd::prelude::*;

use crate::entity::EntityUID;
use crate::error::PolicyError;
use crate::eval::Expr;
use crate::eval::Var;
use crate::input::InputValue;
use crate::input::from_input;
use crate::input::spec_from_input;
use crate::policy::Effect;
use crate::policy::Policy;
use crate::policy::ScopeConstraint;
use crate::text::parse_entity_uid;
use crate::text::spec_parse_uid;
use crate::value::Value;
use crate::value::sval;

verus! {

/// Whether `key` names a binary condition operator.
pub open spec fn is_binary_key(key: Seq<char>) -> bool {
    ||| key == "and"@
    ||| key == "or"@
    ||| key == "eq"@
    ||| key == "less"@
    ||| key == "lesseq"@
    ||| key == "add"@
    ||| key == "sub"@
    ||| key == "mul"@
    ||| key == "in"@
    ||| key == "contains"@
}

/// The fault in a condition tree, if any.
pub open spec fn spec_expr_err(iv: InputValue) -> Option<PolicyError>
    decreases iv, 2int,
{
    match iv {
        InputValue::Rec(fs) => {
            if fs@.len() != 1 {
                Some(PolicyError::SyntaxError)
            } else {
                let key = fs[0].0@;
                let arg = fs[0].1;
                if key == "var"@ {
                    match arg {
                        InputValue::Str(s) => if s@ == "principal"@ || s@ == "action"@ || s@
                            == "resource"@ || s@ == "context"@ {
                            None
                        } else {
                            Some(PolicyError::SyntaxError)
                        },
                        _ => Some(PolicyError::SyntaxError),
                    }
                } else if key == "lit"@ {
                    match spec_from_input(arg) {
                        Ok(_) => None,
                        Err(_) => Some(PolicyError::SyntaxError),
                    }
                } else if key == "entity"@ {
                    match arg {
                        InputValue::Str(s) => if spec_parse_uid(s@) is Some {
                            None
                        } else {
                            Some(PolicyError::SyntaxError)
                        },
                        _ => Some(PolicyError::SyntaxError),
                    }
                } else if key == "not"@ || key == "is_ipv4"@ || key == "is_ipv6"@ {
                    spec_expr_err(arg)
                } else if is_binary_key(key) {
                    spec_expr_pair_err(arg)
                } else if key == "getattr"@ || key == "hasattr"@ {
                    spec_expr_attr_err(arg)
                } else {
                    Some(PolicyError::SemanticError)
                }
            }
        },
        _ => Some(PolicyError::SyntaxError),
    }
}

/// The fault in a two-operand argument, if any.
pub open spec fn spec_expr_pair_err(arg: InputValue) -> Option<PolicyError>
    decreases arg, 1int,
{
    match arg {
        InputValue::List(xs) => if xs@.len() != 2 {
            Some(PolicyError::SyntaxError)
        } else {
            match spec_expr_err(xs[0]) {
                Some(k) => Some(k),
                None => spec_expr_err(xs[1]),
            }
        },
        _ => Some(PolicyError::SyntaxError),
    }
}

/// The fault in an attribute-access argument (an operand and a field
/// name), if any.
pub open spec fn spec_expr_attr_err(arg: InputValue) -> Option<PolicyError>
    decreases arg, 1int,
{
    match arg {
        InputValue::List(xs) => if xs@.len() != 2 {
            Some(PolicyError::SyntaxError)
        } else {
            match xs[1] {
                InputValue::Str(_) => spec_expr_err(xs[0]),
                _ => Some(PolicyError::SyntaxError),
            }
        },
        _ => Some(PolicyError::SyntaxError),
    }
}

/// Whether the expression `e` is what the condition tree `iv` denotes.
pub open spec fn expr_matches(e: Expr, iv: InputValue) -> bool
    decreases iv, 2int,
{
    match iv {
        InputValue::Rec(fs) => {
            if fs@.len() != 1 {
                false
            } else {
                let key = fs[0].0@;
                let arg = fs[0].1;
                if key == "var"@ {
                    match arg {
                        InputValue::Str(s) => {
                            ||| (s@ == "principal"@ && e == Expr::Var(Var::Principal))
                            ||| (s@ == "action"@ && e == Expr::Var(Var::Action))
                            ||| (s@ == "resource"@ && e == Expr::Var(Var::Resource))
                            ||| (s@ == "context"@ && e == Expr::Var(Var::Context))
                        },
                        _ => false,
                    }
                } else if key == "lit"@ {
                    e matches Expr::Lit(v) && spec_from_input(arg) == Ok::<
                        crate::value::SpecValue,
                        crate::error::ValueError,
                    >(sval(v))
                } else if key == "entity"@ {
                    match arg {
                        InputValue::Str(s) => e matches Expr::Lit(v) && v matches Value::Entity(u)
                            && spec_parse_uid(s@) == Some(u@),
                        _ => false,
                    }
                } else if key == "not"@ {
                    e matches Expr::Not(b) && expr_matches(*b, arg)
                } else if key == "is_ipv4"@ {
                    e matches Expr::IsIpv4(b) && expr_matches(*b, arg)
                } else if key == "is_ipv6"@ {
                    e matches Expr::IsIpv6(b) && expr_matches(*b, arg)
                } else if is_binary_key(key) {
                    match arg {
                        InputValue::List(xs) => xs@.len() == 2 && {
                            if key == "and"@ {
                                e matches Expr::And(a, b) && expr_matches(*a, xs[0])
                                    && expr_matches(*b, xs[1])
                            } else if key == "or"@ {
                                e matches Expr::Or(a, b) && expr_matches(*a, xs[0])
                                    && expr_matches(*b, xs[1])
                            } else if key == "eq"@ {
                                e matches Expr::Equals(a, b) && expr_matches(*a, xs[0])
                                    && expr_matches(*b, xs[1])
                            } else if key == "less"@ {
                                e matches Expr::Less(a, b) && expr_matches(*a, xs[0])
                                    && expr_matches(*b, xs[1])
                            } else if key == "lesseq"@ {
                                e matches Expr::LessEq(a, b) && expr_matches(*a, xs[0])
                                    && expr_matches(*b, xs[1])
                            } else if key == "add"@ {
                                e matches Expr::Add(a, b) && expr_matches(*a, xs[0])
                                    && expr_matches(*b, xs[1])
                            } else if key == "sub"@ {
                                e matches Expr::Sub(a, b) && expr_matches(*a, xs[0])
                                    && expr_matches(*b, xs[1])
                            } else if key == "mul"@ {
                                e matches Expr::Mul(a, b) && expr_matches(*a, xs[0])
                                    && expr_matches(*b, xs[1])
                            } else if key == "in"@ {
                                e matches Expr::In(a, b) && expr_matches(*a, xs[0])
                                    && expr_matches(*b, xs[1])
                            } else {
                                e matches Expr::Contains(a, b) && expr_matches(*a, xs[0])
                                    && expr_matches(*b, xs[1])
                            }
                        },
                        _ => false,
                    }
                } else if key == "getattr"@ {
                    match arg {
                        InputValue::List(xs) => xs@.len() == 2 && match xs[1] {
                            InputValue::Str(name) => e matches Expr::GetAttr(b, n) && n@ == name@
                                && expr_matches(*b, xs[0]),
                            _ => false,
                        },
                        _ => false,
                    }
                } else if key == "hasattr"@ {
                    match arg {
                        InputValue::List(xs) => xs@.len() == 2 && match xs[1] {
                            InputValue::Str(name) => e matches Expr::HasAttr(b, n) && n@ == name@
                                && expr_matches(*b, xs[0]),
                            _ => false,
                        },
                        _ => false,
                    }
                } else {
                    false
                }
            }
        },
        _ => false,
    }
}

/// Whether the string `s` holds exactly the text `lit`.
pub fn string_is(s: &String, lit: &str) -> (r: bool)
    ensures
        r == (s@ == lit@),
{
    let o: String = lit.to_owned();
    *s == o
}

fn is_binary_exec(key: &String) -> (r: bool)
    ensures
        r == is_binary_key(key@),
{
    string_is(key, "and") || string_is(key, "or") || string_is(key, "eq") || string_is(
        key,
        "less",
    ) || string_is(key, "lesseq") || string_is(key, "add") || string_is(key, "sub") || string_is(
        key,
        "mul",
    ) || string_is(key, "in") || string_is(key, "contains")
}

/// Builds a condition expression from its structured form.
pub fn parse_expr(iv: &InputValue) -> (r: Result<Expr, PolicyError>)
    ensures
        match r {
            Ok(e) => spec_expr_err(*iv) is None && expr_matches(e, *iv),
            Err(k) => spec_expr_err(*iv) == Some(k),
        },
    decreases *iv, 2int,
{
    proof {
        reveal_with_fuel(spec_expr_err, 3);
    }
    let fs = match iv {
        InputValue::Rec(fs) => fs,
        _ => {
            return Err(PolicyError::SyntaxError);
        },
    };
    if fs.len() != 1 {
        return Err(PolicyError::SyntaxError);
    }
    let key = &fs[0].0;
    let arg = &fs[0].1;
    if string_is(key, "var") {
        match arg {
            InputValue::Str(s) => {
                if string_is(s, "principal") {
                    Ok(Expr::Var(Var::Principal))
                } else if string_is(s, "action") {
                    Ok(Expr::Var(Var::Action))
                } else if string_is(s, "resource") {
                    Ok(Expr::Var(Var::Resource))
                } else if string_is(s, "context") {
                    Ok(Expr::Var(Var::Context))
                } else {
                    Err(PolicyError::SyntaxError)
                }
            },
            _ => Err(PolicyError::SyntaxError),
        }
    } else if string_is(key, "lit") {
        match from_input(arg) {
            Ok(v) => Ok(Expr::Lit(v)),
            Err(_) => Err(PolicyError::SyntaxError),
        }
    } else if string_is(key, "entity") {
        match arg {
            InputValue::Str(s) => match parse_entity_uid(s.as_str()) {
                Some(u) => Ok(Expr::Lit(Value::Entity(u))),
                None => Err(PolicyError::SyntaxError),
            },
            _ => Err(PolicyError::SyntaxError),
        }
    } else if string_is(key, "not") {
        match parse_expr(arg) {
            Ok(e) => Ok(Expr::Not(Box::new(e))),
            Err(k) => Err(k),
        }
    } else if string_is(key, "is_ipv4") {
        match parse_expr(arg) {
            Ok(e) => Ok(Expr::IsIpv4(Box::new(e))),
            Err(k) => Err(k),
        }
    } else if string_is(key, "is_ipv6") {
        match parse_expr(arg) {
            Ok(e) => Ok(Expr::IsIpv6(Box::new(e))),
            Err(k) => Err(k),
        }
    } else if is_binary_exec(key) {
        let xs = match arg {
            InputValue::List(xs) => xs,
            _ => {
                return Err(PolicyError::SyntaxError);
            },
        };
        if xs.len() != 2 {
            return Err(PolicyError::SyntaxError);
        }
        let a = match parse_expr(&xs[0]) {
            Ok(a) => a,
            Err(k) => {
                return Err(k);
            },
        };
        let b = match parse_expr(&xs[1]) {
            Ok(b) => b,
            Err(k) => {
                return Err(k);
            },
        };
        let e = if string_is(key, "and") {
            Expr::And(Box::new(a), Box::new(b))
        } else if string_is(key, "or") {
            Expr::Or(Box::new(a), Box::new(b))
        } else if string_is(key, "eq") {
            Expr::Equals(Box::new(a), Box::new(b))
        } else if string_is(key, "less") {
            Expr::Less(Box::new(a), Box::new(b))
        } else if string_is(key, "lesseq") {
            Expr::LessEq(Box::new(a), Box::new(b))
        } else if string_is(key, "add") {
            Expr::Add(Box::new(a), Box::new(b))
        } else if string_is(key, "sub") {
            Expr::Sub(Box::new(a), Box::new(b))
        } else if string_is(key, "mul") {
            Expr::Mul(Box::new(a), Box::new(b))
        } else if string_is(key, "in") {
            Expr::In(Box::new(a), Box::new(b))
        } else {
            Expr::Contains(Box::new(a), Box::new(b))
        };
        Ok(e)
    } else if string_is(key, "getattr") || string_is(key, "hasattr") {
        let xs = match arg {
            InputValue::List(xs) => xs,
            _ => {
                return Err(PolicyError::SyntaxError);
            },
        };
        if xs.len() != 2 {
            return Err(PolicyError::SyntaxError);
        }
        let name = match &xs[1] {
            InputValue::Str(name) => name,
            _ => {
                return Err(PolicyError::SyntaxError);
            },
        };
        let b = match parse_expr(&xs[0]) {
            Ok(b) => b,
            Err(k) => {
                return Err(k);
            },
        };
        if string_is(key, "getattr") {
            Ok(Expr::GetAttr(Box::new(b), name.clone()))
        } else {
            Ok(Expr::HasAttr(Box::new(b), name.clone()))
        }
    } else {
        Err(PolicyError::SemanticError)
    }
}

/// The fault in a scope form, if any.
pub open spec fn spec_scope_err(iv: InputValue) -> Option<PolicyError> {
    match iv {
        InputValue::Str(s) => if s@ == "any"@ {
            None
        } else {
            Some(PolicyError::SemanticError)
        },
        InputValue::Rec(fs) => if fs@.len() != 1 {
            Some(PolicyError::SyntaxError)
        } else {
            let key = fs[0].0@;
            let arg = fs[0].1;
            if key == "eq"@ || key == "in"@ {
                match arg {
                    InputValue::Str(s) => if spec_parse_uid(s@) is Some {
                        None
                    } else {
                        Some(PolicyError::SyntaxError)
                    },
                    _ => Some(PolicyError::SyntaxError),
                }
            } else if key == "in_set"@ {
                match arg {
                    InputValue::List(xs) => if forall|i: int|
                        0 <= i < xs@.len() ==> ((#[trigger] xs@[i]) matches InputValue::Str(s)
                            && spec_parse_uid(s@) is Some) {
                        None
                    } else {
                        Some(PolicyError::SyntaxError)
                    },
                    _ => Some(PolicyError::SyntaxError),
                }
            } else {
                Some(PolicyError::SemanticError)
            }
        },
        _ => Some(PolicyError::SyntaxError),
    }
}

/// Whether the constraint `sc` is what the scope form `iv` denotes.
pub open spec fn scope_matches(sc: ScopeConstraint, iv: InputValue) -> bool {
    match iv {
        InputValue::Str(s) => s@ == "any"@ && sc == ScopeConstraint::Any,
        InputValue::Rec(fs) => fs@.len() == 1 && {
            let key = fs[0].0@;
            let arg = fs[0].1;
            if key == "eq"@ {
                arg matches InputValue::Str(s) && sc matches ScopeConstraint::EqTo(u)
                    && spec_parse_uid(s@) == Some(u@)
            } else if key == "in"@ {
                arg matches InputValue::Str(s) && sc matches ScopeConstraint::InEntity(u)
                    && spec_parse_uid(s@) == Some(u@)
            } else if key == "in_set"@ {
                arg matches InputValue::List(xs) && sc matches ScopeConstraint::InSet(us)
                    && us@.len() == xs@.len() && forall|i: int|
                    0 <= i < xs@.len() ==> ((#[trigger] xs@[i]) matches InputValue::Str(s)
                        && spec_parse_uid(s@) == Some(us@[i]@))
            } else {
                false
            }
        },
        _ => false,
    }
}

/// Builds a scope constraint from its structured form.
pub fn parse_scope(iv: &InputValue) -> (r: Result<ScopeConstraint, PolicyError>)
    ensures
        match r {
            Ok(sc) => spec_scope_err(*iv) is None && scope_matches(sc, *iv),
            Err(k) => spec_scope_err(*iv) == Some(k),
        },
{
    match iv {
        InputValue::Str(s) => {
            if string_is(s, "any") {
                Ok(ScopeConstraint::Any)
            } else {
                Err(PolicyError::SemanticError)
            }
        },
        InputValue::Rec(fs) => {
            if fs.len() != 1 {
                return Err(PolicyError::SyntaxError);
            }
            let key = &fs[0].0;
            let arg = &fs[0].1;
            if string_is(key, "eq") || string_is(key, "in") {
                let s = match arg {
                    InputValue::Str(s) => s,
                    _ => {
                        return Err(PolicyError::SyntaxError);
                    },
                };
                let u = match parse_entity_uid(s.as_str()) {
                    Some(u) => u,
                    None => {
                        return Err(PolicyError::SyntaxError);
                    },
                };
                if string_is(key, "eq") {
                    Ok(ScopeConstraint::EqTo(u))
                } else {
                    Ok(ScopeConstraint::InEntity(u))
                }
            } else if string_is(key, "in_set") {
                let xs = match arg {
                    InputValue::List(xs) => xs,
                    _ => {
                        return Err(PolicyError::SyntaxError);
                    },
                };
                match parse_uid_list(xs) {
                    None => Err(PolicyError::SyntaxError),
                    Some(us) => Ok(ScopeConstraint::InSet(us)),
                }
            } else {
                Err(PolicyError::SemanticError)
            }
        },
        _ => Err(PolicyError::SyntaxError),
    }
}

/// Parses a list of entity identity strings; `None` when an element is
/// not such a string.
fn parse_uid_list(xs: &Vec<InputValue>) -> (r: Option<Vec<EntityUID>>)
    ensures
        match r {
            Some(us) => us@.len() == xs@.len() && forall|i: int|
                0 <= i < xs@.len() ==> ((#[trigger] xs@[i]) matches InputValue::Str(s)
                    && spec_parse_uid(s@) == Some(us@[i]@)),
            None => !(forall|i: int|
                0 <= i < xs@.len() ==> ((#[trigger] xs@[i]) matches InputValue::Str(s)
                    && spec_parse_uid(s@) is Some)),
        },
{
    let n = xs.len();
    let mut us: Vec<EntityUID> = Vec::new();
    let mut i: usize = 0;
    while i < n
        invariant
            n == xs@.len(),
            0 <= i <= n,
            us@.len() == i,
            forall|j: int|
                0 <= j < i ==> ((#[trigger] xs@[j]) matches InputValue::Str(s)
                    && spec_parse_uid(s@) == Some(us@[j]@)),
        decreases n - i,
    {
        let s = match &xs[i] {
            InputValue::Str(s) => s,
            _ => {
                proof {
                    assert(!((xs@[i as int]) matches InputValue::Str(s) && spec_parse_uid(
                        s@,
                    ) is Some));
                }
                return None;
            },
        };
        let u = match parse_entity_uid(s.as_str()) {
            Some(u) => u,
            None => {
                proof {
                    assert(!((xs@[i as int]) matches InputValue::Str(ss) && spec_parse_uid(
                        ss@,
                    ) is Some));
                }
                return None;
            },
        };
        us.push(u);
        i = i + 1;
    }
    Some(us)
}

/// Whether `k` is a field a policy record may carry.
pub open spec fn is_policy_key(k: Seq<char>) -> bool {
    ||| k == "effect"@
    ||| k == "principal"@
    ||| k == "action"@
    ||| k == "resource"@
    ||| k == "when"@
    ||| k == "unless"@
}

/// The value of the first field named `name` from index `i` on.
pub open spec fn ifield_from(
    fs: Vec<(String, InputValue)>,
    name: Seq<char>,
    i: int,
) -> Option<InputValue>
    decreases fs@.len() - i,
{
    if i < 0 || i >= fs@.len() {
        None
    } else if fs@[i].0@ == name {
        Some(fs@[i].1)
    } else {
        ifield_from(fs, name, i + 1)
    }
}

/// The value of the first field named `name`, if any.
pub open spec fn ifield(fs: Vec<(String, InputValue)>, name: Seq<char>) -> Option<InputValue> {
    ifield_from(fs, name, 0)
}

/// The fault in a policy record's `effect` field, if any.
pub open spec fn spec_effect_err(fs: Vec<(String, InputValue)>) -> Option<PolicyError> {
    match ifield(fs, "effect"@) {
        None => Some(PolicyError::SyntaxError),
        Some(ev) => match ev {
            InputValue::Str(s) => if s@ == "permit"@ || s@ == "forbid"@ {
                None
            } else {
                Some(PolicyError::SemanticError)
            },
            _ => Some(PolicyError::SyntaxError),
        },
    }
}

/// The fault in an optional scope field, if any; an absent field is the
/// unconstrained scope.
pub open spec fn spec_scope_field_err(
    fs: Vec<(String, InputValue)>,
    name: Seq<char>,
) -> Option<PolicyError> {
    match ifield(fs, name) {
        None => None,
        Some(sv) => spec_scope_err(sv),
    }
}

/// The fault in an optional condition field, if any.
pub open spec fn spec_cond_field_err(
    fs: Vec<(String, InputValue)>,
    name: Seq<char>,
) -> Option<PolicyError> {
    match ifield(fs, name) {
        None => None,
        Some(w) => spec_expr_err(w),
    }
}

/// The fault in a stored policy's structured form, if any: an unknown
/// field, then the effect, the three scopes and the two condition fields,
/// in that order.
pub open spec fn spec_policy_err(iv: InputValue) -> Option<PolicyError> {
    match iv {
        InputValue::Rec(fs) => {
            if !(forall|i: int| 0 <= i < fs@.len() ==> is_policy_key((#[trigger] fs@[i]).0@)) {
                Some(PolicyError::SyntaxError)
            } else {
                match spec_effect_err(fs) {
                    Some(k) => Some(k),
                    None => match spec_scope_field_err(fs, "principal"@) {
                        Some(k) => Some(k),
                        None => match spec_scope_field_err(fs, "action"@) {
                            Some(k) => Some(k),
                            None => match spec_scope_field_err(fs, "resource"@) {
                                Some(k) => Some(k),
                                None => match spec_cond_field_err(fs, "when"@) {
                                    Some(k) => Some(k),
                                    None => spec_cond_field_err(fs, "unless"@),
                                },
                            },
                        },
                    },
                }
            }
        },
        _ => Some(PolicyError::SyntaxError),
    }
}

/// Whether the effect `e` is what the record's `effect` field names.
pub open spec fn effect_matches(e: Effect, fs: Vec<(String, InputValue)>) -> bool {
    match ifield(fs, "effect"@) {
        Some(ev) => ev matches InputValue::Str(s) && ((s@ == "permit"@ && e == Effect::Permit) || (
        s@ == "forbid"@ && e == Effect::Forbid)),
        None => false,
    }
}

/// Whether the constraint `sc` is what the record's scope field denotes;
/// an absent field denotes the unconstrained scope.
pub open spec fn scope_field_matches(
    sc: ScopeConstraint,
    fs: Vec<(String, InputValue)>,
    name: Seq<char>,
) -> bool {
    match ifield(fs, name) {
        None => sc == ScopeConstraint::Any,
        Some(sv) => scope_matches(sc, sv),
    }
}

/// Whether the condition `c` combines the `when` and `unless` trees: the
/// literal `true` when both are absent, the `when` tree alone, the negated
/// `unless` tree alone, or their conjunction.
pub open spec fn cond_matches(c: Expr, w: Option<InputValue>, u: Option<InputValue>) -> bool {
    match (w, u) {
        (Option::None, Option::None) => c == Expr::Lit(Value::Bool(true)),
        (Option::Some(wi), Option::None) => expr_matches(c, wi),
        (Option::None, Option::Some(ui)) => c matches Expr::Not(b) && expr_matches(*b, ui),
        (Option::Some(wi), Option::Some(ui)) => c matches Expr::And(a, b) && expr_matches(*a, wi)
            && ((*b) matches Expr::Not(nb) && expr_matches(*nb, ui)),
    }
}

/// Whether the policy `p` with id `pid` is what the structured form `iv`
/// denotes.
pub open spec fn policy_matches(p: Policy, pid: Seq<char>, iv: InputValue) -> bool {
    iv matches InputValue::Rec(fs) && p.id@ == pid && effect_matches(p.effect, fs)
        && scope_field_matches(p.principal_scope, fs, "principal"@) && scope_field_matches(
        p.action_scope,
        fs,
        "action"@,
    ) && scope_field_matches(p.resource_scope, fs, "resource"@) && cond_matches(
        p.condition,
        ifield(fs, "when"@),
        ifield(fs, "unless"@),
    )
}

/// Looks a field up in a policy record.
fn find_field<'a>(fs: &'a Vec<(String, InputValue)>, lit: &str) -> (r: Option<&'a InputValue>)
    ensures
        match r {
            Some(v) => ifield(*fs, lit@) == Some(*v),
            None => ifield(*fs, lit@) is None,
        },
{
    let n = fs.len();
    let mut i: usize = 0;
    while i < n
        invariant
            n == fs@.len(),
            0 <= i <= n,
            ifield_from(*fs, lit@, i as int) == ifield_from(*fs, lit@, 0),
        decreases n - i,
    {
        if string_is(&fs[i].0, lit) {
            return Some(&fs[i].1);
        }
        i = i + 1;
    }
    None
}

fn check_keys(fs: &Vec<(String, InputValue)>) -> (r: bool)
    ensures
        r == (forall|i: int| 0 <= i < fs@.len() ==> is_policy_key((#[trigger] fs@[i]).0@)),
{
    let n = fs.len();
    let mut i: usize = 0;
    while i < n
        invariant
            n == fs@.len(),
            0 <= i <= n,
            forall|j: int| 0 <= j < i ==> is_policy_key((#[trigger] fs@[j]).0@),
        decreases n - i,
    {
        let k = &fs[i].0;
        let ok = string_is(k, "effect") || string_is(k, "principal") || string_is(k, "action")
            || string_is(k, "resource") || string_is(k, "when") || string_is(k, "unless");
        if !ok {
            assert(!is_policy_key(fs@[i as int].0@));
            return false;
        }
        i = i + 1;
    }
    true
}

/// Builds a validated policy from its structured form, under the given id.
pub fn parse_policy(id: &String, iv: &InputValue) -> (r: Result<Policy, PolicyError>)
    ensures
        match r {
            Ok(p) => spec_policy_err(*iv) is None && policy_matches(p, id@, *iv),
            Err(k) => spec_policy_err(*iv) == Some(k),
        },
{
    let fs = match iv {
        InputValue::Rec(fs) => fs,
        _ => {
            return Err(PolicyError::SyntaxError);
        },
    };
    if !check_keys(fs) {
        return Err(PolicyError::SyntaxError);
    }
    let effect = match find_field(fs, "effect") {
        None => {
            return Err(PolicyError::SyntaxError);
        },
        Some(ev) => match ev {
            InputValue::Str(s) => {
                if string_is(s, "permit") {
                    Effect::Permit
                } else if string_is(s, "forbid") {
                    Effect::Forbid
                } else {
                    return Err(PolicyError::SemanticError);
                }
            },
            _ => {
                return Err(PolicyError::SyntaxError);
            },
        },
    };
    let principal_scope = match find_field(fs, "principal") {
        None => ScopeConstraint::Any,
        Some(sv) => match parse_scope(sv) {
            Ok(sc) => sc,
            Err(k) => {
                return Err(k);
            },
        },
    };
    let action_scope = match find_field(fs, "action") {
        None => ScopeConstraint::Any,
        Some(sv) => match parse_scope(sv) {
            Ok(sc) => sc,
            Err(k) => {
                return Err(k);
            },
        },
    };
    let resource_scope = match find_field(fs, "resource") {
        None => ScopeConstraint::Any,
        Some(sv) => match parse_scope(sv) {
            Ok(sc) => sc,
            Err(k) => {
                return Err(k);
            },
        },
    };
    let when_f = find_field(fs, "when");
    let unless_f = find_field(fs, "unless");
    let condition = match (when_f, unless_f) {
        (None, None) => Expr::Lit(Value::Bool(true)),
        (Some(w), None) => match parse_expr(w) {
            Ok(e) => e,
            Err(k) => {
                return Err(k);
            },
        },
        (None, Some(u)) => match parse_expr(u) {
            Ok(e) => Expr::Not(Box::new(e)),
            Err(k) => {
                return Err(k);
            },
        },
        (Some(w), Some(u)) => {
            let we = match parse_expr(w) {
                Ok(e) => e,
                Err(k) => {
                    return Err(k);
                },
            };
            let ue = match parse_expr(u) {
                Ok(e) => e,
                Err(k) => {
                    return Err(k);
                },
            };
            Expr::And(Box::new(we), Box::new(Expr::Not(Box::new(ue))))
        },
    };
    Ok(
        Policy {
            id: id.clone(),
            effect,
            principal_scope,
            action_scope,
            resource_scope,
            condition,
        },
    )
}

} // verus!
