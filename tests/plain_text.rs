use scout::{format_plain, JsonNumber, JsonValue};

fn text(s: &str) -> JsonValue {
    JsonValue::Str(s.to_string())
}

fn num(n: i64) -> JsonValue {
    JsonValue::Number(JsonNumber { text: n.to_string(), milli: n * 1000 })
}

fn obj(members: Vec<(&str, JsonValue)>) -> JsonValue {
    JsonValue::Object(members.into_iter().map(|(k, v)| (k.to_string(), v)).collect())
}

#[test]
fn format_plain_null() {
    assert!(format_plain(&JsonValue::Null).contains("null"));
}

#[test]
fn format_plain_bool_and_number() {
    assert!(format_plain(&JsonValue::Bool(true)).contains("true"));
    assert!(format_plain(&num(42)).contains("42"));
}

#[test]
fn format_plain_string() {
    assert!(format_plain(&text("hello")).contains("hello"));
}

#[test]
fn format_plain_empty_array() {
    let out = format_plain(&JsonValue::Array(vec![]));
    assert!(out.contains("empty"));
}

#[test]
fn format_plain_object() {
    let v = obj(vec![("count", num(1)), ("name", text("scout"))]);
    let out = format_plain(&v);
    assert!(out.contains("name"));
    assert!(out.contains("scout"));
    assert!(out.contains("count"));
}

#[test]
fn format_plain_array_of_objects() {
    let v = JsonValue::Array(vec![
        obj(vec![("id", num(1)), ("name", text("a"))]),
        obj(vec![("id", num(2)), ("name", text("b"))]),
    ]);
    let out = format_plain(&v);
    assert!(out.contains("id"));
    assert!(out.contains("name"));
    assert!(out.contains("1"));
    assert!(out.contains("2"));
    assert!(out.contains("a"));
    assert!(out.contains("b"));
}

#[test]
fn plain_text_layout_is_exact() {
    let v = obj(vec![
        ("tags", JsonValue::Array(vec![text("x\"y"), obj(vec![("k", JsonValue::Null)])])),
        ("ok", JsonValue::Bool(false)),
    ]);
    assert_eq!(
        format_plain(&v),
        "tags:\n  \"x\\\"y\"\n  [2]\n    k: null\nok: false\n"
    );
    let table = JsonValue::Array(vec![
        obj(vec![("id", num(1)), ("name", text("a very long name indeed"))]),
        obj(vec![("id", num(2))]),
    ]);
    assert_eq!(
        format_plain(&table),
        "          id         name\n-------------------------\n           1 a very long\u{2026}\n           2            -\n"
    );
}
