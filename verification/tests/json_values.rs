//! Canonicalization, order-insensitive comparison and rendering of
//! decoded values.

use rpc_tester::json::Json;

fn obj(fields: Vec<(&str, Json)>) -> Json {
    Json::Obj(fields.into_iter().map(|(k, v)| (k.to_string(), v)).collect())
}

fn s(text: &str) -> Json {
    Json::Str(text.to_string())
}

fn num(text: &str) -> Json {
    Json::Num(text.to_string())
}

#[test]
fn canonical_sorts_object_keys() {
    let v = obj(vec![("b", num("2")), ("a", num("1"))]);
    let c = v.canonical();
    assert_eq!(c.to_text(), "{\n  \"a\": 1,\n  \"b\": 2\n}");
}

#[test]
fn canonical_sorts_nested_objects() {
    let v = obj(vec![("outer", obj(vec![("z", s("y")), ("a", s("b"))])), ("first", num("0"))]);
    let c = v.canonical();
    assert_eq!(
        c.to_text(),
        "{\n  \"first\": 0,\n  \"outer\": {\n    \"a\": \"b\",\n    \"z\": \"y\"\n  }\n}"
    );
}

#[test]
fn equal_values_compare_equal() {
    let v = obj(vec![("a", num("1")), ("b", Json::Bool(true))]);
    let w = obj(vec![("a", num("1")), ("b", Json::Bool(true))]);
    assert!(rpc_tester::json::json_eq(&v, &w));
}

#[test]
fn permuted_fields_compare_equal() {
    let v = obj(vec![("a", num("1")), ("b", Json::Bool(true)), ("c", Json::Null)]);
    let w = obj(vec![("c", Json::Null), ("a", num("1")), ("b", Json::Bool(true))]);
    assert!(rpc_tester::json::json_eq(&v, &w));
}

#[test]
fn permuted_nested_fields_compare_equal() {
    let v = obj(vec![("x", obj(vec![("p", num("1")), ("q", num("2"))]))]);
    let w = obj(vec![("x", obj(vec![("q", num("2")), ("p", num("1"))]))]);
    assert!(rpc_tester::json::json_eq(&v, &w));
}

#[test]
fn canonical_compared_to_itself_is_equal() {
    let v = obj(vec![("b", Json::Arr(vec![num("1"), s("two")])), ("a", Json::Null)]);
    let c = v.canonical();
    assert!(rpc_tester::json::json_eq(&c, &c));
}

#[test]
fn different_values_compare_unequal() {
    assert!(!rpc_tester::json::json_eq(&num("1"), &num("2")));
    assert!(!rpc_tester::json::json_eq(&s("1"), &num("1")));
    assert!(!rpc_tester::json::json_eq(&Json::Null, &Json::Bool(false)));
    let v = obj(vec![("a", num("1"))]);
    let w = obj(vec![("a", num("1")), ("b", num("2"))]);
    assert!(!rpc_tester::json::json_eq(&v, &w));
}

#[test]
fn array_order_still_matters() {
    let v = Json::Arr(vec![num("1"), num("2")]);
    let w = Json::Arr(vec![num("2"), num("1")]);
    assert!(!rpc_tester::json::json_eq(&v, &w));
}

#[test]
fn render_scalars() {
    assert_eq!(Json::Null.to_text(), "null");
    assert_eq!(Json::Bool(true).to_text(), "true");
    assert_eq!(Json::Bool(false).to_text(), "false");
    assert_eq!(num("-12.5").to_text(), "-12.5");
    assert_eq!(s("hey").to_text(), "\"hey\"");
}

#[test]
fn render_escapes_strings() {
    assert_eq!(s("a\"b\\c\nd").to_text(), "\"a\\\"b\\\\c\\nd\"");
}

#[test]
fn render_empty_containers() {
    assert_eq!(Json::Arr(vec![]).to_text(), "[]");
    assert_eq!(Json::Obj(vec![]).to_text(), "{}");
}

#[test]
fn render_array_lines() {
    let v = Json::Arr(vec![num("1"), s("x")]);
    assert_eq!(v.to_text(), "[\n  1,\n  \"x\"\n]");
}

#[test]
fn field_lookup() {
    let v = obj(vec![("a", num("1")), ("b", s("x"))]);
    assert!(matches!(v.get("b"), Some(Json::Str(t)) if t == "x"));
    assert!(v.get("missing").is_none());
    assert!(num("1").get("a").is_none());
}
