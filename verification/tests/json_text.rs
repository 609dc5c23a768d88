use api_config::json::to_compact_text;
use api_config::json::JsonValue;

fn num(text: &str, int_value: Option<i64>) -> JsonValue {
    JsonValue::Num { text: text.to_string(), int_value }
}

#[test]
fn scalars_serialize_to_json_literals() {
    assert_eq!(to_compact_text(&JsonValue::Null), "null");
    assert_eq!(to_compact_text(&JsonValue::Bool(true)), "true");
    assert_eq!(to_compact_text(&JsonValue::Bool(false)), "false");
    assert_eq!(to_compact_text(&num("42", Some(42))), "42");
    assert_eq!(to_compact_text(&JsonValue::Str("hi".to_string())), "\"hi\"");
}

#[test]
fn arrays_and_objects_serialize_compactly() {
    let v = JsonValue::Arr(vec![
        num("1", Some(1)),
        JsonValue::Str("x".to_string()),
        JsonValue::Obj(vec![("k".to_string(), JsonValue::Bool(false))]),
    ]);
    assert_eq!(to_compact_text(&v), "[1,\"x\",{\"k\":false}]");
    assert_eq!(to_compact_text(&JsonValue::Arr(Vec::new())), "[]");
    assert_eq!(to_compact_text(&JsonValue::Obj(Vec::new())), "{}");
}

#[test]
fn strings_are_escaped() {
    let v = JsonValue::Str("a\"b\\c\nd".to_string());
    assert_eq!(to_compact_text(&v), "\"a\\\"b\\\\c\\nd\"");
    let ctl = JsonValue::Str("\u{1}".to_string());
    assert_eq!(to_compact_text(&ctl), "\"\\u0001\"");
}
