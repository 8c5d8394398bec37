//! End-to-end scenarios for the decision engine.

use cedar_authorizer::engine::evaluate;
use cedar_authorizer::engine::AuthorizationResponse;
use cedar_authorizer::engine::Decision;
use cedar_authorizer::entity::Entity;
use cedar_authorizer::entity::EntityStore;
use cedar_authorizer::entity::EntityUID;
use cedar_authorizer::error::EvaluationError;
use cedar_authorizer::eval::Expr;
use cedar_authorizer::eval::Var;
use cedar_authorizer::policy::Effect;
use cedar_authorizer::policy::Policy;
use cedar_authorizer::policy::ScopeConstraint;
use cedar_authorizer::request::authorize_request;
use cedar_authorizer::request::build_entities;
use cedar_authorizer::request::AuthorizationRequest;
use cedar_authorizer::request::EntityInput;
use cedar_authorizer::request::Parent;
use cedar_authorizer::request::NormalizedRequest;
use cedar_authorizer::request::UID;
use cedar_authorizer::input::InputValue;
use cedar_authorizer::value::ExtValue;
use cedar_authorizer::value::Value;

fn uid(etype: &str, id: &str) -> EntityUID {
    EntityUID { etype: etype.to_string(), id: id.to_string() }
}

fn alice_entity(with_ip: bool) -> Entity {
    let mut attrs: Vec<(String, Value)> = vec![("age".to_string(), Value::Long(19))];
    if with_ip {
        attrs.push(("ip_addr".to_string(), Value::Ext(ExtValue::Ipv4(10, 0, 1, 101))));
    }
    Entity { uid: uid("User", "alice"), attrs, parents: vec![] }
}

fn view_policy() -> Policy {
    Policy {
        id: "policy0".to_string(),
        effect: Effect::Permit,
        principal_scope: ScopeConstraint::EqTo(uid("User", "alice")),
        action_scope: ScopeConstraint::EqTo(uid("Action", "view")),
        resource_scope: ScopeConstraint::EqTo(uid("Album", "trip")),
        condition: Expr::IsIpv4(Box::new(Expr::GetAttr(
            Box::new(Expr::Var(Var::Principal)),
            "ip_addr".to_string(),
        ))),
    }
}

fn view_request() -> NormalizedRequest {
    NormalizedRequest {
        principal: uid("User", "alice"),
        action: uid("Action", "view"),
        resource: uid("Album", "trip"),
        context: vec![],
    }
}

#[test]
fn permit_with_ipv4_condition_allows() {
    let store = EntityStore { entities: vec![alice_entity(true)] };
    let r = evaluate(&view_request(), &vec![view_policy()], &store);
    assert_eq!(r.decision, Decision::Allow);
    let d = r.diagnostics.unwrap();
    assert_eq!(d.reasons, vec!["policy0".to_string()]);
    assert!(d.errors.is_empty());
}

#[test]
fn missing_attribute_denies_with_error() {
    let store = EntityStore { entities: vec![alice_entity(false)] };
    let r = evaluate(&view_request(), &vec![view_policy()], &store);
    assert_eq!(r.decision, Decision::Deny);
    let d = r.diagnostics.unwrap();
    assert!(d.reasons.is_empty());
    assert_eq!(d.errors.len(), 1);
    assert_eq!(d.errors[0].policy_id, "policy0".to_string());
    assert_eq!(d.errors[0].kind, EvaluationError::MissingAttribute);
}

#[test]
fn forbid_overrides_permit() {
    let forbid = Policy {
        id: "forbid0".to_string(),
        effect: Effect::Forbid,
        principal_scope: ScopeConstraint::EqTo(uid("User", "alice")),
        action_scope: ScopeConstraint::Any,
        resource_scope: ScopeConstraint::Any,
        condition: Expr::Lit(Value::Bool(true)),
    };
    let store = EntityStore { entities: vec![alice_entity(true)] };
    let r = evaluate(&view_request(), &vec![view_policy(), forbid], &store);
    assert_eq!(r.decision, Decision::Deny);
    let d = r.diagnostics.unwrap();
    assert_eq!(d.reasons, vec!["forbid0".to_string()]);
    assert!(d.errors.is_empty());
}

#[test]
fn empty_policy_set_denies_with_empty_reasons() {
    let store = EntityStore { entities: vec![alice_entity(true)] };
    let r = evaluate(&view_request(), &vec![], &store);
    assert_eq!(r.decision, Decision::Deny);
    let d = r.diagnostics.unwrap();
    assert!(d.reasons.is_empty());
    assert!(d.errors.is_empty());
}

#[test]
fn evaluation_is_deterministic() {
    let store = EntityStore { entities: vec![alice_entity(true)] };
    let policies = vec![view_policy()];
    let r1 = evaluate(&view_request(), &policies, &store);
    let r2 = evaluate(&view_request(), &policies, &store);
    assert_eq!(r1, r2);
}

#[test]
fn hierarchy_transitivity_matches_grandparent_scope() {
    // photo -> album -> account: a policy scoped `resource in account`
    // matches a request whose resource is the photo.
    let photo = Entity {
        uid: uid("Photo", "sunset"),
        attrs: vec![],
        parents: vec![uid("Album", "trip")],
    };
    let album = Entity {
        uid: uid("Album", "trip"),
        attrs: vec![],
        parents: vec![uid("Account", "alice")],
    };
    let account = Entity { uid: uid("Account", "alice"), attrs: vec![], parents: vec![] };
    let store = EntityStore { entities: vec![photo, album, account] };
    assert_eq!(
        store.is_descendant_or_self(&uid("Photo", "sunset"), &uid("Account", "alice")),
        Ok(true)
    );
    let p = Policy {
        id: "p1".to_string(),
        effect: Effect::Permit,
        principal_scope: ScopeConstraint::Any,
        action_scope: ScopeConstraint::Any,
        resource_scope: ScopeConstraint::InEntity(uid("Account", "alice")),
        condition: Expr::Lit(Value::Bool(true)),
    };
    let req = NormalizedRequest {
        principal: uid("User", "alice"),
        action: uid("Action", "view"),
        resource: uid("Photo", "sunset"),
        context: vec![],
    };
    let r = evaluate(&req, &vec![p], &store);
    assert_eq!(r.decision, Decision::Allow);
    assert_eq!(r.diagnostics.unwrap().reasons, vec!["p1".to_string()]);
}

#[test]
fn parent_cycle_is_reported_and_denied() {
    let a = Entity { uid: uid("G", "a"), attrs: vec![], parents: vec![uid("G", "b")] };
    let b = Entity { uid: uid("G", "b"), attrs: vec![], parents: vec![uid("G", "a")] };
    let store = EntityStore { entities: vec![a, b] };
    assert_eq!(
        store.ancestors(&uid("G", "a")),
        Err(EvaluationError::CyclicHierarchy)
    );
    let p = Policy {
        id: "p1".to_string(),
        effect: Effect::Permit,
        principal_scope: ScopeConstraint::Any,
        action_scope: ScopeConstraint::Any,
        resource_scope: ScopeConstraint::InEntity(uid("G", "b")),
        condition: Expr::Lit(Value::Bool(true)),
    };
    let req = NormalizedRequest {
        principal: uid("User", "alice"),
        action: uid("Action", "view"),
        resource: uid("G", "a"),
        context: vec![],
    };
    let r = evaluate(&req, &vec![p], &store);
    assert_eq!(r.decision, Decision::Deny);
    let d = r.diagnostics.unwrap();
    assert!(d.reasons.is_empty());
    assert_eq!(d.errors[0].kind, EvaluationError::CyclicHierarchy);
}

#[test]
fn malformed_principal_fails_closed() {
    let req = AuthorizationRequest {
        principal: "not an identifier".to_string(),
        action: "Action::\"view\"".to_string(),
        resource: "Album::\"trip\"".to_string(),
        context: None,
        entities: None,
    };
    let store = EntityStore { entities: vec![] };
    let r = authorize_request(&req, &vec![view_policy()], &store);
    assert_eq!(r, AuthorizationResponse { decision: Decision::Deny, diagnostics: None });
}

#[test]
fn malformed_action_resource_or_context_fail_closed() {
    let store = EntityStore { entities: vec![] };
    let base = |action: &str, resource: &str, context: Option<InputValue>| AuthorizationRequest {
        principal: "User::\"alice\"".to_string(),
        action: action.to_string(),
        resource: resource.to_string(),
        context,
        entities: None,
    };
    let deny = AuthorizationResponse { decision: Decision::Deny, diagnostics: None };
    let r = authorize_request(&base("view", "Album::\"trip\"", None), &vec![], &store);
    assert_eq!(r, deny);
    let r = authorize_request(&base("Action::\"view\"", "trip photos", None), &vec![], &store);
    assert_eq!(r, deny);
    let bad_context = Some(InputValue::Int(3));
    let r = authorize_request(
        &base("Action::\"view\"", "Album::\"trip\"", bad_context),
        &vec![],
        &store,
    );
    assert_eq!(r, deny);
}

#[test]
fn wire_request_end_to_end_allows() {
    let inputs = vec![EntityInput {
        uid: UID { etype: "User".to_string(), id: "alice".to_string() },
        attrs: vec![
            ("age".to_string(), InputValue::Int(19)),
            (
                "ip_addr".to_string(),
                InputValue::Ext("ip".to_string(), "10.0.1.101".to_string()),
            ),
        ],
        parents: vec![],
    }];
    let store = build_entities(&inputs).unwrap();
    let req = AuthorizationRequest {
        principal: "User::\"alice\"".to_string(),
        action: "Action::\"view\"".to_string(),
        resource: "Album::\"trip\"".to_string(),
        context: None,
        entities: None,
    };
    let r = authorize_request(&req, &vec![view_policy()], &store);
    assert_eq!(r.decision, Decision::Allow);
    assert_eq!(r.diagnostics.unwrap().reasons, vec!["policy0".to_string()]);
}

#[test]
fn in_set_scope_matches_parent() {
    let child = Entity {
        uid: uid("User", "bob"),
        attrs: vec![],
        parents: vec![uid("Group", "staff")],
    };
    let group = Entity { uid: uid("Group", "staff"), attrs: vec![], parents: vec![] };
    let store = EntityStore { entities: vec![child, group] };
    let p = Policy {
        id: "p1".to_string(),
        effect: Effect::Permit,
        principal_scope: ScopeConstraint::InSet(vec![uid("Group", "admins"), uid("Group", "staff")]),
        action_scope: ScopeConstraint::Any,
        resource_scope: ScopeConstraint::Any,
        condition: Expr::Lit(Value::Bool(true)),
    };
    let req = NormalizedRequest {
        principal: uid("User", "bob"),
        action: uid("Action", "view"),
        resource: uid("Album", "trip"),
        context: vec![],
    };
    let r = evaluate(&req, &vec![p], &store);
    assert_eq!(r.decision, Decision::Allow);
}

#[test]
fn missing_entity_attribute_access_reports_entity_not_found() {
    let store = EntityStore { entities: vec![] };
    let p = Policy {
        id: "p1".to_string(),
        effect: Effect::Permit,
        principal_scope: ScopeConstraint::Any,
        action_scope: ScopeConstraint::Any,
        resource_scope: ScopeConstraint::Any,
        condition: Expr::GetAttr(Box::new(Expr::Var(Var::Principal)), "age".to_string()),
    };
    let r = evaluate(&view_request(), &vec![p], &store);
    assert_eq!(r.decision, Decision::Deny);
    let d = r.diagnostics.unwrap();
    assert_eq!(d.errors[0].kind, EvaluationError::EntityNotFound);
}

#[test]
fn arithmetic_overflow_is_a_type_mismatch() {
    let p = Policy {
        id: "p1".to_string(),
        effect: Effect::Permit,
        principal_scope: ScopeConstraint::Any,
        action_scope: ScopeConstraint::Any,
        resource_scope: ScopeConstraint::Any,
        condition: Expr::Equals(
            Box::new(Expr::Add(
                Box::new(Expr::Lit(Value::Long(i64::MAX))),
                Box::new(Expr::Lit(Value::Long(1))),
            )),
            Box::new(Expr::Lit(Value::Long(0))),
        ),
    };
    let store = EntityStore { entities: vec![] };
    let r = evaluate(&view_request(), &vec![p], &store);
    assert_eq!(r.decision, Decision::Deny);
    assert_eq!(
        r.diagnostics.unwrap().errors[0].kind,
        EvaluationError::TypeMismatch
    );
}

#[test]
fn short_circuit_skips_faulting_operand() {
    // false && (1 + true) evaluates to false without reporting the fault.
    let p = Policy {
        id: "p1".to_string(),
        effect: Effect::Permit,
        principal_scope: ScopeConstraint::Any,
        action_scope: ScopeConstraint::Any,
        resource_scope: ScopeConstraint::Any,
        condition: Expr::Or(
            Box::new(Expr::Not(Box::new(Expr::And(
                Box::new(Expr::Lit(Value::Bool(false))),
                Box::new(Expr::Add(
                    Box::new(Expr::Lit(Value::Long(1))),
                    Box::new(Expr::Lit(Value::Bool(true))),
                )),
            )))),
            Box::new(Expr::Lit(Value::Bool(false))),
        ),
    };
    let store = EntityStore { entities: vec![] };
    let r = evaluate(&view_request(), &vec![p], &store);
    assert_eq!(r.decision, Decision::Allow);
    assert!(r.diagnostics.unwrap().errors.is_empty());
}

#[test]
fn context_fields_are_readable() {
    let p = Policy {
        id: "p1".to_string(),
        effect: Effect::Permit,
        principal_scope: ScopeConstraint::Any,
        action_scope: ScopeConstraint::Any,
        resource_scope: ScopeConstraint::Any,
        condition: Expr::Equals(
            Box::new(Expr::GetAttr(Box::new(Expr::Var(Var::Context)), "mfa".to_string())),
            Box::new(Expr::Lit(Value::Bool(true))),
        ),
    };
    let req = NormalizedRequest {
        principal: uid("User", "alice"),
        action: uid("Action", "view"),
        resource: uid("Album", "trip"),
        context: vec![("mfa".to_string(), Value::Bool(true))],
    };
    let store = EntityStore { entities: vec![] };
    let r = evaluate(&req, &vec![p], &store);
    assert_eq!(r.decision, Decision::Allow);
}

#[test]
fn malformed_entities_are_rejected() {
    let inputs = vec![EntityInput {
        uid: UID { etype: "User".to_string(), id: "alice".to_string() },
        attrs: vec![(
            "ip_addr".to_string(),
            InputValue::Ext("ip".to_string(), "not an ip".to_string()),
        )],
        parents: vec![Parent { etype: "Group".to_string(), id: "staff".to_string() }],
    }];
    assert!(build_entities(&inputs).is_err());
}
