use reqx::json::{json_value_to_string, JsonValue};

#[test]
fn parse_scalars() {
    assert_eq!(JsonValue::parse("null"), Some(JsonValue::Null));
    assert_eq!(JsonValue::parse("true"), Some(JsonValue::Bool(true)));
    assert_eq!(JsonValue::parse("false"), Some(JsonValue::Bool(false)));
    assert_eq!(JsonValue::parse("12"), Some(JsonValue::Number("12".to_string())));
    assert_eq!(JsonValue::parse("-3"), Some(JsonValue::Number("-3".to_string())));
    assert_eq!(JsonValue::parse("1.5"), Some(JsonValue::Number("1.5".to_string())));
    assert_eq!(JsonValue::parse("\"hi\""), Some(JsonValue::String("hi".to_string())));
}

#[test]
fn parse_structures() {
    let doc = JsonValue::parse("{\"b\": [1, \"x\"], \"a\": null}").unwrap();
    assert_eq!(
        doc,
        JsonValue::Object(vec![
            ("a".to_string(), JsonValue::Null),
            (
                "b".to_string(),
                JsonValue::Array(vec![
                    JsonValue::Number("1".to_string()),
                    JsonValue::String("x".to_string()),
                ])
            ),
        ])
    );
}

#[test]
fn parse_rejects_what_is_not_json() {
    assert_eq!(JsonValue::parse("hello"), None);
    assert_eq!(JsonValue::parse(""), None);
    assert_eq!(JsonValue::parse("{"), None);
    assert_eq!(JsonValue::parse("[1,]"), None);
}

#[test]
fn body_text_is_always_a_document() {
    assert_eq!(
        JsonValue::from_body_text("[1]"),
        JsonValue::Array(vec![JsonValue::Number("1".to_string())])
    );
    assert_eq!(
        JsonValue::from_body_text("<html></html>"),
        JsonValue::String("<html></html>".to_string())
    );
    assert_eq!(JsonValue::from_body_text(""), JsonValue::String(String::new()));
}

#[test]
fn compact_text_of_documents() {
    let doc = JsonValue::parse("{ \"b\" : 1, \"a\" : [ true, null, \"x\" ] }").unwrap();
    assert_eq!(doc.compact_text(), "{\"a\":[true,null,\"x\"],\"b\":1}");
    assert_eq!(JsonValue::String("q\"t".to_string()).compact_text(), "\"q\\\"t\"");
    assert_eq!(JsonValue::Null.compact_text(), "null");
}

#[test]
fn compact_text_keeps_the_last_member_of_a_name() {
    let doc = JsonValue::Object(vec![
        ("k".to_string(), JsonValue::Number("1".to_string())),
        ("k".to_string(), JsonValue::Number("2".to_string())),
    ]);
    assert_eq!(doc.compact_text(), "{\"k\":2}");
}

#[test]
fn debug_text_of_documents() {
    let doc = JsonValue::parse("{\"a\": 1}").unwrap();
    assert_eq!(doc.debug_text(), "Object {\"a\": Number(1)}");
    assert_eq!(JsonValue::Null.debug_text(), "Null");
    assert_eq!(JsonValue::String("x".to_string()).debug_text(), "String(\"x\")");
    assert_eq!(
        JsonValue::parse("[true]").unwrap().debug_text(),
        "Array [Bool(true)]"
    );
}

#[test]
fn kinds_of_documents() {
    assert!(JsonValue::Null.is_null());
    assert!(JsonValue::Array(vec![]).is_array());
    assert!(JsonValue::Object(vec![]).is_object());
    assert!(JsonValue::String(String::new()).is_string());
    assert!(JsonValue::Number("1".to_string()).is_number());
    assert!(!JsonValue::Bool(true).is_null());
    assert!(!JsonValue::Null.is_array());
    assert!(!JsonValue::Array(vec![]).is_object());
    assert!(!JsonValue::Number("1".to_string()).is_string());
    assert!(!JsonValue::String("1".to_string()).is_number());
}

#[test]
fn text_for_comparison() {
    assert_eq!(json_value_to_string(&JsonValue::String("raw".to_string())), "raw");
    assert_eq!(json_value_to_string(&JsonValue::Number("42".to_string())), "42");
    assert_eq!(json_value_to_string(&JsonValue::Bool(true)), "true");
    assert_eq!(json_value_to_string(&JsonValue::Bool(false)), "false");
    assert_eq!(json_value_to_string(&JsonValue::Null), "null");
    assert_eq!(
        json_value_to_string(&JsonValue::parse("[1, 2, 3]").unwrap()),
        "[1,2,3]"
    );
    assert_eq!(
        json_value_to_string(&JsonValue::parse("{\"a\": \"b\"}").unwrap()),
        "{\"a\":\"b\"}"
    );
}
