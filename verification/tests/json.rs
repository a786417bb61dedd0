use confirm_service_sdk::json::{canonical_json, write_json, JsonNumber, JsonValue};

fn text(s: &str) -> JsonValue {
    JsonValue::String(s.to_string())
}

fn num(n: u64) -> JsonValue {
    JsonValue::Number(JsonNumber::PosInt(n))
}

fn object(members: Vec<(&str, JsonValue)>) -> JsonValue {
    JsonValue::Object(members.into_iter().map(|(k, v)| (k.to_string(), v)).collect())
}

#[test]
fn canonical_json_sorts_object_keys_recursively() {
    let value = object(vec![
        ("z", num(1)),
        ("a", object(vec![("y", num(2)), ("b", num(3))])),
        ("list", JsonValue::Array(vec![object(vec![("d", num(4)), ("c", num(5))])])),
    ]);
    assert_eq!(
        canonical_json(&value),
        r#"{"a":{"b":3,"y":2},"list":[{"c":5,"d":4}],"z":1}"#
    );
}

#[test]
fn canonical_json_is_stable_under_canonicalization() {
    let value = object(vec![
        ("b", JsonValue::Array(vec![num(2), num(1)])),
        ("a", object(vec![("y", JsonValue::Null), ("x", JsonValue::Bool(false))])),
    ]);
    let once = value.canonicalize();
    let twice = once.canonicalize();
    assert_eq!(once, twice);
    assert_eq!(canonical_json(&once), canonical_json(&value));
    assert_eq!(canonical_json(&value), r#"{"a":{"x":false,"y":null},"b":[2,1]}"#);
}

#[test]
fn canonical_json_orders_names_by_bytes() {
    let value = object(vec![
        ("é", num(1)),
        ("b", num(2)),
        ("B", num(3)),
        ("", num(4)),
        ("ab", num(5)),
        ("a", num(6)),
    ]);
    assert_eq!(
        canonical_json(&value),
        r#"{"":4,"B":3,"a":6,"ab":5,"b":2,"é":1}"#
    );
}

#[test]
fn canonical_json_keeps_duplicate_names_in_order() {
    let value = object(vec![("k", num(2)), ("a", num(0)), ("k", num(1))]);
    assert_eq!(canonical_json(&value), r#"{"a":0,"k":2,"k":1}"#);
}

#[test]
fn json_strings_are_escaped_like_serde_json() {
    let value = text("q\"b\\s/\u{8}\u{c}\n\r\t\u{1}\u{1f}\u{7f}é");
    let mut out = String::new();
    write_json(&mut out, &value);
    assert_eq!(out, "\"q\\\"b\\\\s/\\b\\f\\n\\r\\t\\u0001\\u001f\u{7f}é\"");
    let expected = serde_json::to_string(&serde_json::Value::String(
        "q\"b\\s/\u{8}\u{c}\n\r\t\u{1}\u{1f}\u{7f}é".to_string(),
    ))
    .expect("serde_json");
    assert_eq!(out, expected);
}

#[test]
fn json_numbers_are_written_in_decimal() {
    let value = JsonValue::Array(vec![
        num(0),
        num(u64::MAX),
        JsonValue::Number(JsonNumber::NegInt(-17)),
        JsonValue::Number(JsonNumber::NegInt(i64::MIN)),
        JsonValue::Number(JsonNumber::Float("1.5".to_string())),
    ]);
    assert_eq!(
        canonical_json(&value),
        "[0,18446744073709551615,-17,-9223372036854775808,1.5]"
    );
}

#[test]
fn empty_containers_are_written_compactly() {
    let value = object(vec![("a", JsonValue::Array(vec![])), ("o", object(vec![]))]);
    assert_eq!(canonical_json(&value), r#"{"a":[],"o":{}}"#);
}

#[test]
fn get_and_as_str_read_members() {
    let value = object(vec![("hash", text("sha256:x")), ("n", num(3))]);
    assert_eq!(value.get("hash").and_then(|v| v.as_str()), Some("sha256:x"));
    assert_eq!(value.get("n").and_then(|v| v.as_str()), None);
    assert!(value.get("missing").is_none());
    assert!(text("x").get("hash").is_none());
}

#[test]
fn clone_copies_deeply() {
    let value = object(vec![("a", JsonValue::Array(vec![text("x"), num(1)]))]);
    let copy = value.clone();
    assert_eq!(copy, value);
}

#[test]
fn member_order_does_not_change_the_canonical_text() {
    let first = object(vec![
        ("b", JsonValue::Array(vec![object(vec![("y", num(1)), ("x", num(2))])])),
        ("a", object(vec![("q", text("q")), ("p", JsonValue::Null)])),
    ]);
    let second = object(vec![
        ("a", object(vec![("p", JsonValue::Null), ("q", text("q"))])),
        ("b", JsonValue::Array(vec![object(vec![("x", num(2)), ("y", num(1))])])),
    ]);
    assert_eq!(canonical_json(&first), canonical_json(&second));
    assert_eq!(canonical_json(&first), r#"{"a":{"p":null,"q":"q"},"b":[{"x":2,"y":1}]}"#);
}
