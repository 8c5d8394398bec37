//! Tests for building policies from their structured stored form.

use cedar_authorizer::engine::evaluate;
use cedar_authorizer::engine::Decision;
use cedar_authorizer::entity::Entity;
use cedar_authorizer::entity::EntityStore;
use cedar_authorizer::entity::EntityUID;
use cedar_authorizer::error::PolicyError;
use cedar_authorizer::eval::Expr;
use cedar_authorizer::eval::Var;
use cedar_authorizer::input::InputValue;
use cedar_authorizer::policy::Effect;
use cedar_authorizer::policy::ScopeConstraint;
use cedar_authorizer::policy_parse::parse_expr;
use cedar_authorizer::policy_parse::parse_policy;
use cedar_authorizer::policy_parse::parse_scope;
use cedar_authorizer::request::NormalizedRequest;
use cedar_authorizer::value::ExtValue;
use cedar_authorizer::value::Value;

fn rec1(key: &str, v: InputValue) -> InputValue {
    InputValue::Rec(vec![(key.to_string(), v)])
}

fn s(text: &str) -> InputValue {
    InputValue::Str(text.to_string())
}

fn uid(etype: &str, id: &str) -> EntityUID {
    EntityUID { etype: etype.to_string(), id: id.to_string() }
}

#[test]
fn parse_scope_forms() {
    assert_eq!(parse_scope(&s("any")), Ok(ScopeConstraint::Any));
    assert_eq!(
        parse_scope(&rec1("eq", s("User::\"alice\""))),
        Ok(ScopeConstraint::EqTo(uid("User", "alice")))
    );
    assert_eq!(
        parse_scope(&rec1("in", s("Group::\"staff\""))),
        Ok(ScopeConstraint::InEntity(uid("Group", "staff")))
    );
    assert_eq!(
        parse_scope(&rec1("in_set", InputValue::List(vec![s("G::\"a\""), s("G::\"b\"")]))),
        Ok(ScopeConstraint::InSet(vec![uid("G", "a"), uid("G", "b")]))
    );
    assert_eq!(parse_scope(&s("sometimes")), Err(PolicyError::SemanticError));
    assert_eq!(parse_scope(&rec1("near", s("User::\"a\""))), Err(PolicyError::SemanticError));
    assert_eq!(parse_scope(&rec1("eq", s("nonsense"))), Err(PolicyError::SyntaxError));
    assert_eq!(parse_scope(&InputValue::Int(3)), Err(PolicyError::SyntaxError));
}

#[test]
fn parse_expr_forms() {
    assert_eq!(parse_expr(&rec1("var", s("principal"))), Ok(Expr::Var(Var::Principal)));
    assert_eq!(
        parse_expr(&rec1("lit", InputValue::Int(5))),
        Ok(Expr::Lit(Value::Long(5)))
    );
    assert_eq!(
        parse_expr(&rec1("entity", s("User::\"alice\""))),
        Ok(Expr::Lit(Value::Entity(uid("User", "alice"))))
    );
    let and = parse_expr(&rec1(
        "and",
        InputValue::List(vec![
            rec1("lit", InputValue::Bool(true)),
            rec1("lit", InputValue::Bool(false)),
        ]),
    ))
    .unwrap();
    assert_eq!(
        and,
        Expr::And(
            Box::new(Expr::Lit(Value::Bool(true))),
            Box::new(Expr::Lit(Value::Bool(false))),
        )
    );
    let ga = parse_expr(&rec1(
        "getattr",
        InputValue::List(vec![rec1("var", s("principal")), s("ip_addr")]),
    ))
    .unwrap();
    assert_eq!(
        ga,
        Expr::GetAttr(Box::new(Expr::Var(Var::Principal)), "ip_addr".to_string())
    );
    assert_eq!(
        parse_expr(&rec1("frobnicate", InputValue::Int(1))),
        Err(PolicyError::SemanticError)
    );
    assert_eq!(
        parse_expr(&rec1("and", InputValue::List(vec![rec1("lit", InputValue::Bool(true))]))),
        Err(PolicyError::SyntaxError)
    );
    assert_eq!(parse_expr(&InputValue::Int(1)), Err(PolicyError::SyntaxError));
}

#[test]
fn parse_policy_builds_the_scenario_policy() {
    let form = InputValue::Rec(vec![
        ("effect".to_string(), s("permit")),
        ("principal".to_string(), rec1("eq", s("User::\"alice\""))),
        ("action".to_string(), rec1("eq", s("Action::\"view\""))),
        ("resource".to_string(), rec1("eq", s("Album::\"trip\""))),
        (
            "when".to_string(),
            rec1(
                "is_ipv4",
                rec1(
                    "getattr",
                    InputValue::List(vec![rec1("var", s("principal")), s("ip_addr")]),
                ),
            ),
        ),
    ]);
    let p = parse_policy(&"policy0".to_string(), &form).unwrap();
    assert_eq!(p.id, "policy0".to_string());
    assert_eq!(p.effect, Effect::Permit);
    assert_eq!(p.principal_scope, ScopeConstraint::EqTo(uid("User", "alice")));
    let alice = Entity {
        uid: uid("User", "alice"),
        attrs: vec![("ip_addr".to_string(), Value::Ext(ExtValue::Ipv4(10, 0, 1, 101)))],
        parents: vec![],
    };
    let store = EntityStore { entities: vec![alice] };
    let req = NormalizedRequest {
        principal: uid("User", "alice"),
        action: uid("Action", "view"),
        resource: uid("Album", "trip"),
        context: vec![],
    };
    let r = evaluate(&req, &vec![p], &store);
    assert_eq!(r.decision, Decision::Allow);
}

#[test]
fn parse_policy_defaults_and_unless() {
    let form = InputValue::Rec(vec![
        ("effect".to_string(), s("forbid")),
        ("unless".to_string(), rec1("lit", InputValue::Bool(false))),
    ]);
    let p = parse_policy(&"p".to_string(), &form).unwrap();
    assert_eq!(p.effect, Effect::Forbid);
    assert_eq!(p.principal_scope, ScopeConstraint::Any);
    assert_eq!(
        p.condition,
        Expr::Not(Box::new(Expr::Lit(Value::Bool(false))))
    );
    let bare = InputValue::Rec(vec![("effect".to_string(), s("permit"))]);
    let q = parse_policy(&"q".to_string(), &bare).unwrap();
    assert_eq!(q.condition, Expr::Lit(Value::Bool(true)));
}

#[test]
fn parse_policy_rejects_bad_records() {
    let unknown_effect = InputValue::Rec(vec![("effect".to_string(), s("allow"))]);
    assert_eq!(
        parse_policy(&"p".to_string(), &unknown_effect),
        Err(PolicyError::SemanticError)
    );
    let missing_effect = InputValue::Rec(vec![("principal".to_string(), s("any"))]);
    assert_eq!(
        parse_policy(&"p".to_string(), &missing_effect),
        Err(PolicyError::SyntaxError)
    );
    let stray_key = InputValue::Rec(vec![
        ("effect".to_string(), s("permit")),
        ("color".to_string(), s("red")),
    ]);
    assert_eq!(
        parse_policy(&"p".to_string(), &stray_key),
        Err(PolicyError::SyntaxError)
    );
    assert_eq!(
        parse_policy(&"p".to_string(), &InputValue::Bool(true)),
        Err(PolicyError::SyntaxError)
    );
}
