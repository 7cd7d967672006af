use terraform_settings_mapper::json::{json_to_text, JsonValue};
use terraform_settings_mapper::text::{trim_end_matches, trim_start_matches};

fn s(t: &str) -> JsonValue {
    JsonValue::Str(t.to_string())
}

fn n(t: &str) -> JsonValue {
    JsonValue::Number(t.to_string())
}

#[test]
fn scalars_are_written_as_json() {
    assert_eq!(json_to_text(&JsonValue::Null), "null");
    assert_eq!(json_to_text(&JsonValue::Bool(true)), "true");
    assert_eq!(json_to_text(&JsonValue::Bool(false)), "false");
    assert_eq!(json_to_text(&n("42")), "42");
    assert_eq!(json_to_text(&n("-1.5")), "-1.5");
    assert_eq!(json_to_text(&s("prod")), "\"prod\"");
}

#[test]
fn strings_are_escaped() {
    assert_eq!(json_to_text(&s("a\"b")), "\"a\\\"b\"");
    assert_eq!(json_to_text(&s("back\\slash")), "\"back\\\\slash\"");
    assert_eq!(json_to_text(&s("line\nbreak\ttab\r")), "\"line\\nbreak\\ttab\\r\"");
    assert_eq!(json_to_text(&s("\u{8}\u{c}")), "\"\\b\\f\"");
    assert_eq!(json_to_text(&s("\u{1}\u{1f}")), "\"\\u0001\\u001f\"");
    assert_eq!(json_to_text(&s("slash/é")), "\"slash/é\"");
}

#[test]
fn arrays_and_objects_are_compact() {
    let v = JsonValue::Array(vec![n("1"), s("x"), JsonValue::Null]);
    assert_eq!(json_to_text(&v), "[1,\"x\",null]");
    assert_eq!(json_to_text(&JsonValue::Array(vec![])), "[]");
    assert_eq!(json_to_text(&JsonValue::Object(vec![])), "{}");
    let o = JsonValue::Object(vec![
        ("a".to_string(), n("1")),
        ("b\"".to_string(), JsonValue::Array(vec![JsonValue::Bool(true), JsonValue::Object(vec![])])),
    ]);
    assert_eq!(json_to_text(&o), "{\"a\":1,\"b\\\"\":[true,{}]}");
}

#[test]
fn get_finds_the_first_entry_with_the_key() {
    let o = JsonValue::Object(vec![
        ("id".to_string(), s("i-1")),
        ("name".to_string(), s("web")),
        ("id".to_string(), s("i-2")),
    ]);
    assert!(matches!(o.get("id"), Some(JsonValue::Str(t)) if t == "i-1"));
    assert!(matches!(o.get("name").and_then(|v| v.as_str()), Some("web")));
    assert!(o.get("missing").is_none());
    assert!(s("x").get("id").is_none());
    assert!(JsonValue::Array(vec![s("id")]).get("id").is_none());
    assert!(n("1").as_str().is_none());
}

#[test]
fn clone_copies_the_whole_value() {
    let o = JsonValue::Object(vec![
        ("a".to_string(), JsonValue::Array(vec![n("1"), s("x"), JsonValue::Null])),
        ("b".to_string(), JsonValue::Bool(false)),
    ]);
    let c = o.clone();
    assert_eq!(json_to_text(&c), json_to_text(&o));
    assert_eq!(json_to_text(&c), "{\"a\":[1,\"x\",null],\"b\":false}");
}

#[test]
fn trimming_with_an_empty_pattern_keeps_the_text() {
    assert_eq!(trim_start_matches("abc", ""), "abc");
    assert_eq!(trim_end_matches("abc", ""), "abc");
    assert_eq!(trim_start_matches("ababc", "ab"), "c");
    assert_eq!(trim_end_matches("cabab", "ab"), "c");
}
