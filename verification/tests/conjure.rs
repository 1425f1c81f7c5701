use conjure_verification::conjure_value::{
    decode_value, same_values, ConjureValue, FieldDefinition, JsonValue, PrimitiveType, ResolvedType,
};
use conjure_verification::verification_client::{
    check_positive_body, confirmation_error, is_empty_container, PositiveFailure,
};

fn num(i: i64) -> JsonValue {
    JsonValue::Number { integer: Some(i), double: format!("{}", i as f64) }
}

fn text(x: &str) -> JsonValue {
    JsonValue::String(x.to_string())
}

fn obj(entries: Vec<(&str, JsonValue)>) -> JsonValue {
    JsonValue::Object(entries.into_iter().map(|(k, v)| (k.to_string(), v)).collect())
}

fn prim(p: PrimitiveType) -> ResolvedType {
    ResolvedType::Primitive(p)
}

fn field(name: &str, t: ResolvedType) -> FieldDefinition {
    FieldDefinition { field_name: name.to_string(), type_: t }
}

fn optional(t: ResolvedType) -> ResolvedType {
    ResolvedType::Optional(Box::new(t))
}

fn int_value(i: i64) -> ConjureValue {
    ConjureValue::Integer(i)
}

fn double_value(i: i64) -> ConjureValue {
    ConjureValue::Double(format!("{}", i as f64))
}

fn same(a: &ConjureValue, b: &ConjureValue) -> bool {
    same_values(a, b)
}

#[test]
fn test_double() {
    let t = prim(PrimitiveType::Double);
    assert!(same(&decode_value(&t, &num(123)).ok().unwrap(), &double_value(123)));
    assert!(decode_value(&t, &JsonValue::Null).is_err());
    assert!(decode_value(&t, &text("123")).is_err());
}

#[test]
fn test_optional() {
    let t = optional(prim(PrimitiveType::Double));
    let some = ConjureValue::Optional(Some(Box::new(double_value(123))));
    assert!(same(&decode_value(&t, &num(123)).ok().unwrap(), &some));
    let none = decode_value(&t, &JsonValue::Null).ok().unwrap();
    assert!(same(&none, &ConjureValue::Optional(None)));
    assert!(!same(&none, &some));
}

fn optional_fields_type() -> ResolvedType {
    ResolvedType::Object(vec![
        field("foo", prim(PrimitiveType::Double)),
        field("bar", optional(prim(PrimitiveType::Double))),
    ])
}

#[test]
fn test_object_optional_fields() {
    let t = optional_fields_type();
    let expected = ConjureValue::Object(vec![double_value(123), ConjureValue::Optional(None)]);
    assert!(same(&decode_value(&t, &obj(vec![("foo", num(123))])).ok().unwrap(), &expected));
    assert!(decode_value(&t, &obj(vec![("foo", JsonValue::Null)])).is_err());
    assert!(same(
        &decode_value(&t, &obj(vec![("bar", JsonValue::Null), ("foo", num(123))])).ok().unwrap(),
        &expected
    ));
    let present = ConjureValue::Object(vec![
        double_value(123),
        ConjureValue::Optional(Some(Box::new(double_value(555)))),
    ]);
    assert!(same(
        &decode_value(&t, &obj(vec![("bar", num(555)), ("foo", num(123))])).ok().unwrap(),
        &present
    ));
    assert!(decode_value(&t, &obj(vec![("foo", num(123)), ("whoami", num(1))])).is_err());
    assert!(decode_value(&t, &obj(vec![])).is_err());
}

fn collection_fields_type() -> ResolvedType {
    ResolvedType::Object(vec![
        field("foo", prim(PrimitiveType::Double)),
        field("list", ResolvedType::List(Box::new(prim(PrimitiveType::Integer)))),
        field("set", ResolvedType::SetOf(Box::new(prim(PrimitiveType::Integer)))),
        field(
            "map",
            ResolvedType::MapOf(Box::new(prim(PrimitiveType::String)), Box::new(prim(PrimitiveType::Integer))),
        ),
    ])
}

#[test]
fn test_object_collection_fields() {
    let t = collection_fields_type();
    let empty = ConjureValue::Object(vec![
        double_value(123),
        ConjureValue::List(vec![]),
        ConjureValue::SetOf(vec![]),
        ConjureValue::MapOf(vec![]),
    ]);
    assert!(same(&decode_value(&t, &obj(vec![("foo", num(123))])).ok().unwrap(), &empty));
    assert!(decode_value(&t, &obj(vec![("list", JsonValue::Null), ("foo", num(123))])).is_err());
    let full = ConjureValue::Object(vec![
        double_value(123),
        ConjureValue::List(vec![int_value(1), int_value(2), int_value(3)]),
        ConjureValue::SetOf(vec![]),
        ConjureValue::MapOf(vec![]),
    ]);
    let list = JsonValue::Array(vec![num(1), num(2), num(3)]);
    assert!(same(&decode_value(&t, &obj(vec![("list", list), ("foo", num(123))])).ok().unwrap(), &full));
}

fn union_type() -> ResolvedType {
    ResolvedType::Union(vec![
        field("foo", prim(PrimitiveType::Double)),
        field("bar", optional(prim(PrimitiveType::String))),
    ])
}

#[test]
fn deser_union() {
    let t = union_type();
    let foo = ConjureValue::Union("foo".to_string(), Box::new(double_value(123)));
    assert!(same(&decode_value(&t, &obj(vec![("type", text("foo")), ("foo", num(123))])).ok().unwrap(), &foo));
    assert!(same(&decode_value(&t, &obj(vec![("foo", num(123)), ("type", text("foo"))])).ok().unwrap(), &foo));
    let bar = ConjureValue::Union("bar".to_string(), Box::new(ConjureValue::Optional(None)));
    assert!(same(
        &decode_value(&t, &obj(vec![("type", text("bar")), ("bar", JsonValue::Null)])).ok().unwrap(),
        &bar
    ));
    assert!(decode_value(&t, &obj(vec![("type", text("bar"))])).is_err());
    assert!(decode_value(&t, &obj(vec![("type", text("unknown"))])).is_err());
    assert!(decode_value(&t, &obj(vec![])).is_err());
    assert!(decode_value(&t, &obj(vec![("foo", num(123))])).is_err());
    assert!(decode_value(&t, &obj(vec![("bar", num(123))])).is_err());
    let unknown = decode_value(&t, &obj(vec![("type", text("baz")), ("baz", num(7))])).ok().unwrap();
    assert!(same(&unknown, &ConjureValue::Union("baz".to_string(), Box::new(ConjureValue::Any(num(7))))));
}

#[test]
fn test_deserialize_enum() {
    let e = ResolvedType::Enum(vec!["foo".to_string(), "bar".to_string()]);
    assert!(same(&decode_value(&e, &text("foo")).ok().unwrap(), &ConjureValue::Enum("foo".to_string())));
    assert!(same(&decode_value(&e, &text("bar")).ok().unwrap(), &ConjureValue::Enum("bar".to_string())));
    assert!(decode_value(&e, &text("baz")).is_err());
    let keyed = ResolvedType::MapOf(Box::new(e), Box::new(prim(PrimitiveType::Integer)));
    let m = decode_value(&keyed, &obj(vec![("foo", num(1))])).ok().unwrap();
    assert!(same(&m, &ConjureValue::MapOf(vec![(ConjureValue::Enum("foo".to_string()), int_value(1))])));
    assert!(decode_value(&keyed, &obj(vec![("baz", num(1))])).is_err());
}

#[test]
fn test_deserialize_any() {
    let any = prim(PrimitiveType::Any);
    assert!(decode_value(&any, &JsonValue::Null).is_err());
    assert!(same(&decode_value(&any, &num(123)).ok().unwrap(), &ConjureValue::Any(num(123))));
    let keyed = ResolvedType::MapOf(Box::new(prim(PrimitiveType::Any)), Box::new(prim(PrimitiveType::Integer)));
    assert!(decode_value(&keyed, &obj(vec![("123", num(1))])).is_err());
}

#[test]
fn sets_and_maps_ignore_order_and_refuse_duplicates() {
    let t = ResolvedType::SetOf(Box::new(prim(PrimitiveType::Integer)));
    let a = decode_value(&t, &JsonValue::Array(vec![num(1), num(2)])).ok().unwrap();
    let b = decode_value(&t, &JsonValue::Array(vec![num(2), num(1)])).ok().unwrap();
    assert!(same(&a, &b));
    assert!(decode_value(&t, &JsonValue::Array(vec![num(1), num(1)])).is_err());
    let c = decode_value(&t, &JsonValue::Array(vec![num(2), num(3)])).ok().unwrap();
    assert!(!same(&a, &c));
    let m = ResolvedType::MapOf(Box::new(prim(PrimitiveType::String)), Box::new(prim(PrimitiveType::Integer)));
    let x = decode_value(&m, &obj(vec![("a", num(1)), ("b", num(2))])).ok().unwrap();
    let y = decode_value(&m, &obj(vec![("b", num(2)), ("a", num(1))])).ok().unwrap();
    let z = decode_value(&m, &obj(vec![("b", num(3)), ("a", num(1))])).ok().unwrap();
    assert!(same(&x, &y));
    assert!(!same(&x, &z));
    let l = ResolvedType::List(Box::new(prim(PrimitiveType::Integer)));
    let p = decode_value(&l, &JsonValue::Array(vec![num(1), num(2)])).ok().unwrap();
    let q = decode_value(&l, &JsonValue::Array(vec![num(2), num(1)])).ok().unwrap();
    assert!(!same(&p, &q));
    assert!(decode_value(&prim(PrimitiveType::Integer), &num(1i64 << 40)).is_err());
    assert!(decode_value(&prim(PrimitiveType::Safelong), &num(1i64 << 40)).is_ok());
    assert!(decode_value(&prim(PrimitiveType::Safelong), &num(1i64 << 60)).is_err());
}

#[test]
fn test_confirmation_error() {
    let t = prim(PrimitiveType::String);
    let expected = decode_value(&t, &text("foo")).ok().unwrap();
    let body = br#""bar""#;
    let ct = Some("application/json".to_string());
    match check_positive_body(&t, &expected, 200, &ct, body, &Some(text("bar")), "{}") {
        Err(PositiveFailure::Different(c)) => assert!(same(&c, &ConjureValue::Text("bar".to_string()))),
        _ => panic!("expected a different value"),
    }
    let e = confirmation_error("\"foo\"", "\"foo\"", "\"bar\"", Some("\"bar\""), "");
    assert_eq!(e.name(), "ConjureVerificationClient:ConfirmationFailure");
    assert_eq!(e.cause(), "Body didn't match expected Conjure value");
    assert_eq!(e.safe_params().get("responseBodyConjure").map(|s| s.as_str()), Some("\"bar\""));
}

#[test]
fn test_response_parse_error() {
    let t = prim(PrimitiveType::Integer);
    let expected = decode_value(&t, &num(5)).ok().unwrap();
    let ct = Some("application/json".to_string());
    let outcome = check_positive_body(&t, &expected, 200, &ct, b"{ }", &Some(obj(vec![])), "{}");
    match outcome {
        Err(PositiveFailure::Rejected(e)) => {
            assert_eq!(e.name(), "ConjureVerificationClient:CouldNotParseServerResponse");
            assert_eq!(e.code(), conjure_verification::error::Code::FailedPrecondition);
            assert_eq!(e.safe_params().get("responseBody").map(|s| s.as_str()), Some("{}"));
            assert_eq!(
                e.safe_params().get("cause").map(|s| s.as_str()),
                Some("response body is not a value of the endpoint's type")
            );
        }
        _ => panic!("expected a parse failure"),
    }
    let e = confirmation_error("5", "5", "{}", None, "invalid type");
    assert_eq!(e.safe_params().get("responseBodyConjure").map(|s| s.as_str()), Some("<undefined>"));
    let not_json = check_positive_body(&t, &expected, 200, &ct, b"{", &None, "{}");
    match not_json {
        Err(PositiveFailure::Rejected(e)) => assert_eq!(e.cause(), "response body is not JSON"),
        _ => panic!("expected a rejection"),
    }
}

#[test]
fn test_response_empty_missing_fields_ok() {
    let t = ResolvedType::Object(vec![
        field("missing_optional", optional(prim(PrimitiveType::Integer))),
        field("missing_list", ResolvedType::List(Box::new(prim(PrimitiveType::Integer)))),
        field("missing_set", ResolvedType::SetOf(Box::new(prim(PrimitiveType::Integer)))),
        field(
            "missing_map",
            ResolvedType::MapOf(Box::new(prim(PrimitiveType::String)), Box::new(prim(PrimitiveType::Integer))),
        ),
    ]);
    let sent = obj(vec![
        ("missing_optional", JsonValue::Null),
        ("missing_list", JsonValue::Array(vec![])),
        ("missing_set", JsonValue::Array(vec![])),
        ("missing_map", obj(vec![])),
    ]);
    let expected = decode_value(&t, &sent).ok().unwrap();
    let ct = Some("application/json".to_string());
    assert!(check_positive_body(&t, &expected, 200, &ct, b"{}", &Some(obj(vec![])), "{}").is_ok());
}

#[test]
fn test_returns_body() {
    let t = ResolvedType::Object(vec![field("heyo", prim(PrimitiveType::Integer))]);
    let sent = obj(vec![("heyo", num(43))]);
    let expected = decode_value(&t, &sent).ok().unwrap();
    let ct = Some("application/json".to_string());
    assert!(check_positive_body(&t, &expected, 200, &ct, br#"{"heyo":43}"#, &Some(sent), "{}").is_ok());
}

#[test]
fn positive_body_statuses_and_bytes() {
    let t = optional(prim(PrimitiveType::String));
    let expected = decode_value(&t, &JsonValue::Null).ok().unwrap();
    assert!(is_empty_container(&expected));
    assert!(check_positive_body(&t, &expected, 204, &None, b"", &None, "{}").is_ok());
    match check_positive_body(&t, &expected, 500, &None, b"", &None, "{}") {
        Err(PositiveFailure::Rejected(e)) => assert_eq!(e.cause(), "Wasn't successful"),
        _ => panic!("expected a rejection"),
    }
    match check_positive_body(&t, &expected, 200, &Some("text/plain".to_string()), b"", &None, "{}") {
        Err(PositiveFailure::Rejected(e)) => {
            assert_eq!(e.name(), "ConjureVerificationClient:UnexpectedContentType");
            assert_eq!(e.safe_params().get("contentType").map(|s| s.as_str()), Some("text/plain"));
        }
        _ => panic!("expected a rejection"),
    }
    match check_positive_body(&t, &prim_text("x"), 200, &None, b"", &None, "") {
        Err(PositiveFailure::Rejected(e)) => {
            assert_eq!(e.safe_params().get("contentType").map(|s| s.as_str()), Some("<empty>"));
        }
        _ => panic!("expected a rejection"),
    }
    let b = prim(PrimitiveType::Binary);
    let expected = decode_value(&b, &text("aGVsbG8=")).ok().unwrap();
    let ct = Some("application/octet-stream".to_string());
    assert!(check_positive_body(&b, &expected, 200, &ct, b"hello", &None, "{}").is_ok());
    match check_positive_body(&b, &expected, 200, &ct, b"hellp", &None, "{}") {
        Err(PositiveFailure::Different(c)) => assert!(same(&c, &ConjureValue::Text("aGVsbHA=".to_string()))),
        _ => panic!("expected a different value"),
    }
    let s = prim(PrimitiveType::String);
    let as_text = decode_value(&s, &text("aGVsbG8=")).ok().unwrap();
    assert!(matches!(
        check_positive_body(&s, &as_text, 200, &ct, b"hello", &None, ""),
        Err(PositiveFailure::Different(_))
    ));
}

fn prim_text(v: &str) -> ConjureValue {
    ConjureValue::Text(v.to_string())
}

#[test]
fn integer_map_keys() {
    let m = ResolvedType::MapOf(Box::new(prim(PrimitiveType::Integer)), Box::new(prim(PrimitiveType::String)));
    let v = decode_value(&m, &obj(vec![("12", text("a")), ("-3", text("b"))])).ok().unwrap();
    let expected = ConjureValue::MapOf(vec![
        (int_value(-3), ConjureValue::Text("b".to_string())),
        (int_value(12), ConjureValue::Text("a".to_string())),
    ]);
    assert!(same(&v, &expected));
    assert!(decode_value(&m, &obj(vec![("x", text("a"))])).is_err());
    assert!(decode_value(&m, &obj(vec![("3000000000", text("a"))])).is_err());
    assert!(decode_value(&m, &obj(vec![("12", text("a")), ("+12", text("b"))])).is_err());
    assert_eq!(conjure_verification::text::parse_i64("-9223372036854775808"), Some(i64::MIN));
    assert_eq!(conjure_verification::text::parse_i64("+5"), Some(5));
    assert_eq!(conjure_verification::text::parse_i64("-+5"), None);
    assert_eq!(conjure_verification::text::parse_i64("9223372036854775808"), None);
}

#[test]
fn primitive_text_types_are_validated() {
    let b = prim(PrimitiveType::Binary);
    assert!(decode_value(&b, &text("aGVsbG8=")).is_ok());
    assert!(decode_value(&b, &text("not base64!")).is_err());
    let u = prim(PrimitiveType::Uuid);
    let upper = decode_value(&u, &text("7AB8C6E2-7E4A-4C5F-9E8D-1A2B3C4D5E6F")).ok().unwrap();
    assert!(same(&upper, &ConjureValue::Text("7ab8c6e2-7e4a-4c5f-9e8d-1a2b3c4d5e6f".to_string())));
    let simple = decode_value(&u, &text("7ab8c6e27e4a4c5f9e8d1a2b3c4d5e6f")).ok().unwrap();
    assert!(same(&upper, &simple));
    assert!(decode_value(&u, &text("not-a-uuid")).is_err());
    let t = prim(PrimitiveType::Bearertoken);
    assert!(decode_value(&t, &text("abc.DEF-123==")).is_ok());
    assert!(decode_value(&t, &text("a=b")).is_err());
    assert!(decode_value(&t, &text("has space")).is_err());
    assert!(decode_value(&t, &text("")).is_err());
    let d = prim(PrimitiveType::Double);
    assert!(same(&decode_value(&d, &text("NaN")).ok().unwrap(), &ConjureValue::Double("NaN".to_string())));
    assert!(decode_value(&d, &text("-Infinity")).is_ok());
    assert!(decode_value(&d, &text("1.5")).is_err());
    let m = ResolvedType::MapOf(Box::new(u), Box::new(prim(PrimitiveType::String)));
    assert!(decode_value(&m, &obj(vec![("nope", text("a"))])).is_err());
}
