//! Unit tests for the value model, the input layer and the text parsers.

use cedar_authorizer::engine::evaluate;
use cedar_authorizer::engine::Decision;
use cedar_authorizer::entity::EntityStore;
use cedar_authorizer::entity::EntityUID;
use cedar_authorizer::eval::Expr;
use cedar_authorizer::policy::Effect;
use cedar_authorizer::policy::Policy;
use cedar_authorizer::policy::ScopeConstraint;
use cedar_authorizer::request::NormalizedRequest;
use cedar_authorizer::error::ValueError;
use cedar_authorizer::extension::parse_decimal;
use cedar_authorizer::extension::parse_ip;
use cedar_authorizer::extension::parse_ipv4;
use cedar_authorizer::extension::parse_ipv6;
use cedar_authorizer::input::from_input;
use cedar_authorizer::input::InputValue;
use cedar_authorizer::request::PolicyInput;
use cedar_authorizer::text::parse_entity_uid;
use cedar_authorizer::text::str_lt;
use cedar_authorizer::value::get_field;
use cedar_authorizer::value::set_contains;
use cedar_authorizer::value::value_clone;
use cedar_authorizer::value::value_eq;
use cedar_authorizer::value::ExtValue;
use cedar_authorizer::value::Value;

#[test]
fn parse_entity_uid_accepts_simple_and_nested_paths() {
    let u = parse_entity_uid("User::\"alice\"").unwrap();
    assert_eq!(u.etype, "User".to_string());
    assert_eq!(u.id, "alice".to_string());
    let v = parse_entity_uid("App::Photo::\"sunset.jpg\"").unwrap();
    assert_eq!(v.etype, "App::Photo".to_string());
    assert_eq!(v.id, "sunset.jpg".to_string());
    let w = parse_entity_uid("Album::\"\"").unwrap();
    assert_eq!(w.etype, "Album".to_string());
    assert_eq!(w.id, "".to_string());
}

#[test]
fn parse_entity_uid_rejects_malformed_text() {
    assert!(parse_entity_uid("not an identifier").is_none());
    assert!(parse_entity_uid("User").is_none());
    assert!(parse_entity_uid("User::alice").is_none());
    assert!(parse_entity_uid("::\"alice\"").is_none());
    assert!(parse_entity_uid("9User::\"alice\"").is_none());
    assert!(parse_entity_uid("User::\"ali\\ce\"").is_none());
    assert!(parse_entity_uid("User::\"alice").is_none());
    assert!(parse_entity_uid("Us er::\"alice\"").is_none());
    assert!(parse_entity_uid("Usér::\"alice\"").is_none());
    assert!(parse_entity_uid("").is_none());
}

#[test]
fn parse_ipv4_accepts_dotted_quads() {
    assert_eq!(parse_ipv4("10.0.1.101"), Some((10, 0, 1, 101)));
    assert_eq!(parse_ipv4("0.0.0.0"), Some((0, 0, 0, 0)));
    assert_eq!(parse_ipv4("255.255.255.255"), Some((255, 255, 255, 255)));
}

#[test]
fn parse_ipv4_rejects_malformed_quads() {
    assert_eq!(parse_ipv4("256.0.0.1"), None);
    assert_eq!(parse_ipv4("01.2.3.4"), None);
    assert_eq!(parse_ipv4("1.2.3"), None);
    assert_eq!(parse_ipv4("1.2.3.4.5"), None);
    assert_eq!(parse_ipv4("1.2.3.x"), None);
    assert_eq!(parse_ipv4(""), None);
}

#[test]
fn parse_ipv6_accepts_eight_groups() {
    let (hi, lo) = parse_ipv6("2001:db8:0:0:0:0:0:1").unwrap();
    assert_eq!(hi, 0x2001_0db8_0000_0000);
    assert_eq!(lo, 0x0000_0000_0000_0001);
}

#[test]
fn parse_ipv6_rejects_compressed_or_short_forms() {
    assert!(parse_ipv6("::1").is_none());
    assert!(parse_ipv6("2001:db8::1").is_none());
    assert!(parse_ipv6("1:2:3:4:5:6:7").is_none());
    assert!(parse_ipv6("1:2:3:4:5:6:7:8:9").is_none());
}

#[test]
fn parse_ip_tries_both_families() {
    assert_eq!(parse_ip("10.0.1.101"), Some(ExtValue::Ipv4(10, 0, 1, 101)));
    assert_eq!(
        parse_ip("0:0:0:0:0:0:0:1"),
        Some(ExtValue::Ipv6(0, 1))
    );
    assert_eq!(parse_ip("neither"), None);
}

#[test]
fn parse_decimal_scales_by_ten_thousand() {
    assert_eq!(parse_decimal("1.5"), Some(15000));
    assert_eq!(parse_decimal("-0.0001"), Some(-1));
    assert_eq!(parse_decimal("123.4567"), Some(1234567));
    assert_eq!(parse_decimal("0.5"), Some(5000));
}

#[test]
fn parse_decimal_rejects_malformed_text() {
    assert_eq!(parse_decimal("1"), None);
    assert_eq!(parse_decimal("1."), None);
    assert_eq!(parse_decimal(".5"), None);
    assert_eq!(parse_decimal("1.23456"), None);
    assert_eq!(parse_decimal("01.5"), None);
    assert_eq!(parse_decimal("1.5.0"), None);
}

#[test]
fn value_equality_is_structural() {
    let a = Value::SetOf(vec![Value::Long(1), Value::Str("x".to_string())]);
    let b = Value::SetOf(vec![Value::Long(1), Value::Str("x".to_string())]);
    let c = Value::SetOf(vec![Value::Str("x".to_string()), Value::Long(1)]);
    assert!(value_eq(&a, &b));
    assert!(!value_eq(&a, &c));
    assert!(!value_eq(&Value::Long(1), &Value::Bool(true)));
    assert!(value_eq(
        &Value::Entity(EntityUID { etype: "User".to_string(), id: "a".to_string() }),
        &Value::Entity(EntityUID { etype: "User".to_string(), id: "a".to_string() }),
    ));
}

#[test]
fn value_clone_is_deep_and_equal() {
    let a = Value::Record(vec![
        ("k".to_string(), Value::SetOf(vec![Value::Ext(ExtValue::Decimal(15000))])),
    ]);
    let b = value_clone(&a);
    assert!(value_eq(&a, &b));
    assert_eq!(a, b);
}

#[test]
fn record_lookup_finds_first_field() {
    let fields = vec![
        ("a".to_string(), Value::Long(1)),
        ("b".to_string(), Value::Long(2)),
    ];
    assert_eq!(get_field(&fields, &"b".to_string()), Some(&Value::Long(2)));
    assert_eq!(get_field(&fields, &"c".to_string()), None);
}

#[test]
fn set_membership_is_structural() {
    let elems = vec![Value::Long(1), Value::Str("x".to_string())];
    assert!(set_contains(&elems, &Value::Str("x".to_string())));
    assert!(!set_contains(&elems, &Value::Str("y".to_string())));
}

#[test]
fn string_order_is_lexicographic() {
    assert!(str_lt("abc", "abd"));
    assert!(str_lt("ab", "abc"));
    assert!(!str_lt("abc", "abc"));
    assert!(!str_lt("b", "abc"));
}

#[test]
fn ordering_works_inside_conditions() {
    let cond = Expr::And(
        Box::new(Expr::Less(
            Box::new(Expr::Lit(Value::Long(3))),
            Box::new(Expr::Lit(Value::Long(5))),
        )),
        Box::new(Expr::LessEq(
            Box::new(Expr::Lit(Value::Str("abc".to_string()))),
            Box::new(Expr::Lit(Value::Str("abc".to_string()))),
        )),
    );
    let p = Policy {
        id: "p".to_string(),
        effect: Effect::Permit,
        principal_scope: ScopeConstraint::Any,
        action_scope: ScopeConstraint::Any,
        resource_scope: ScopeConstraint::Any,
        condition: cond,
    };
    let req = NormalizedRequest {
        principal: EntityUID { etype: "User".to_string(), id: "a".to_string() },
        action: EntityUID { etype: "Action".to_string(), id: "a".to_string() },
        resource: EntityUID { etype: "R".to_string(), id: "a".to_string() },
        context: vec![],
    };
    let store = EntityStore { entities: vec![] };
    assert_eq!(evaluate(&req, &vec![p], &store).decision, Decision::Allow);
}

#[test]
fn from_input_builds_values_and_rejects_bad_shapes() {
    let v = from_input(&InputValue::Ext("ip".to_string(), "10.0.1.101".to_string())).unwrap();
    assert_eq!(v, Value::Ext(ExtValue::Ipv4(10, 0, 1, 101)));
    let d = from_input(&InputValue::Ext("decimal".to_string(), "1.5".to_string())).unwrap();
    assert_eq!(d, Value::Ext(ExtValue::Decimal(15000)));
    assert_eq!(
        from_input(&InputValue::Ext("frob".to_string(), "1".to_string())),
        Err(ValueError::TypeError)
    );
    let dup = InputValue::Rec(vec![
        ("k".to_string(), InputValue::Int(1)),
        ("k".to_string(), InputValue::Int(2)),
    ]);
    assert_eq!(from_input(&dup), Err(ValueError::TypeError));
    let ok = InputValue::Rec(vec![
        ("k".to_string(), InputValue::Int(1)),
        ("l".to_string(), InputValue::List(vec![InputValue::Bool(true)])),
    ]);
    assert_eq!(
        from_input(&ok).unwrap(),
        Value::Record(vec![
            ("k".to_string(), Value::Long(1)),
            ("l".to_string(), Value::SetOf(vec![Value::Bool(true)])),
        ])
    );
}

#[test]
fn policy_input_validates_non_empty_content() {
    assert!(PolicyInput { content: "permit".to_string() }.validate());
    assert!(!PolicyInput { content: "".to_string() }.validate());
}
