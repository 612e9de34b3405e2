use oapitui::json::{to_compact_string, to_pretty_string, JsonValue};

fn s(t: &str) -> JsonValue {
    JsonValue::Str(t.to_string())
}

fn num(t: &str) -> JsonValue {
    JsonValue::Number(t.to_string())
}

#[test]
fn compact_json_text() {
    let v = JsonValue::Object(vec![
        ("id".to_string(), num("1")),
        ("tags".to_string(), JsonValue::Array(vec![s("a"), JsonValue::Bool(true), JsonValue::Null])),
    ]);
    assert_eq!(to_compact_string(&v), "{\"id\":1,\"tags\":[\"a\",true,null]}");
}

#[test]
fn pretty_json_text() {
    let v = JsonValue::Object(vec![
        ("empty".to_string(), JsonValue::Object(vec![])),
        ("id".to_string(), num("0")),
        ("items".to_string(), JsonValue::Array(vec![s("x")])),
    ]);
    assert_eq!(
        to_pretty_string(&v),
        "{\n  \"empty\": {},\n  \"id\": 0,\n  \"items\": [\n    \"x\"\n  ]\n}"
    );
    assert_eq!(to_pretty_string(&JsonValue::Array(vec![])), "[]");
}

#[test]
fn json_string_escapes() {
    assert_eq!(to_compact_string(&s("a\"b\\c\nd\u{1}")), "\"a\\\"b\\\\c\\nd\\u0001\"");
    assert_eq!(to_compact_string(&s("tab\there\r")), "\"tab\\there\\r\"");
}
