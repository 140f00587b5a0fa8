use std::time::Duration;

use reqx::checks::{is_iso8601, is_uuid};
use reqx::config::Config;
use reqx::http::Response;
use reqx::json::JsonValue;
use reqx::parser::{Assertion, ReqxFile, RequestSection};
use reqx::runtime::{AssertionResult, ExecutionContext};
use reqx::strmap::StringMap;

fn response(status: u16, headers: &[(&str, &str)], body: &str) -> Response {
    Response::from_parts(
        status,
        headers.iter().map(|(k, v)| (k.to_string(), v.to_string())).collect(),
        body,
        Duration::from_millis(12),
    )
}

fn check(expression: &str, expected: &str, response: &Response) -> AssertionResult {
    let ctx = ExecutionContext::new(Config::default());
    ctx.evaluate_assertion(
        &Assertion { expression: expression.to_string(), expected: expected.to_string() },
        response,
    )
}

#[test]
fn status_matches() {
    let r = check("status", "200", &response(200, &[], "{}"));
    assert!(r.passed);
    assert_eq!(r.expression, "status");
    assert_eq!(r.expected, "200");
    assert_eq!(r.actual.as_deref(), Some("200"));
    assert_eq!(r.message, "status = 200");
}

#[test]
fn status_differs() {
    let r = check("status", "200", &response(404, &[], "{}"));
    assert!(!r.passed);
    assert_eq!(r.actual.as_deref(), Some("404"));
    assert!(r.message.contains("200"));
    assert!(r.message.contains("404"));
    assert_eq!(r.message, "status: expected 200, got 404");
}

#[test]
fn status_is_compared_as_text() {
    assert!(!check("status", "0200", &response(200, &[], "{}")).passed);
    assert!(!check("status", " 200", &response(200, &[], "{}")).passed);
    assert!(!check("status", "2xx", &response(200, &[], "{}")).passed);
}

#[test]
fn missing_path_passes_only_for_not_exists() {
    let resp = response(200, &[], "{\"present\": 1}");
    let r = check("body.missing", "!exists", &resp);
    assert!(r.passed);
    assert_eq!(r.actual, None);
    assert_eq!(r.message, "body.missing = !exists");
    let r = check("body.missing", "exists", &resp);
    assert!(!r.passed);
    assert_eq!(r.actual, None);
    assert_eq!(r.message, "body.missing: expected exists");
    assert!(!check("body.missing", "1", &resp).passed);
}

#[test]
fn present_path_and_exists() {
    let resp = response(200, &[], "{\"present\": null}");
    let r = check("body.present", "exists", &resp);
    assert!(r.passed);
    assert_eq!(r.actual.as_deref(), Some("null"));
    let r = check("body.present", "!exists", &resp);
    assert!(!r.passed);
}

#[test]
fn whole_body_keywords() {
    let array = response(200, &[], "[1]");
    let object = response(200, &[], "{\"a\":1}");
    let string = response(200, &[], "plain text");
    let number = response(200, &[], "5");
    let null = response(200, &[], "null");
    assert!(check("body", "is_array", &array).passed);
    assert!(!check("body", "is_array", &object).passed);
    assert!(check("body", "is_object", &object).passed);
    assert!(!check("body", "is_object", &array).passed);
    assert!(check("body", "is_string", &string).passed);
    assert!(!check("body", "is_string", &number).passed);
    assert!(check("body", "is_number", &number).passed);
    assert!(!check("body", "is_number", &string).passed);
    assert!(check("body", "exists", &object).passed);
    assert!(!check("body", "exists", &null).passed);
    assert!(!check("body", "is_uuid", &string).passed);
    assert!(!check("body", "{\"a\":1}", &object).passed);
}

#[test]
fn whole_body_result_record() {
    let r = check("body", "is_object", &response(200, &[], "{\"a\":1}"));
    assert_eq!(r.expression, "body");
    assert_eq!(r.expected, "is_object");
    assert_eq!(r.actual.as_deref(), Some("Object {\"a\": Number(1)}"));
    assert_eq!(r.message, "body is_object");
    let r = check("body", "is_array", &response(200, &[], "{\"a\":1}"));
    assert_eq!(r.message, "body: expected is_array");
}

#[test]
fn path_type_keywords() {
    let resp = response(
        200,
        &[],
        "{\"list\": [1], \"obj\": {}, \"text\": \"t\", \"num\": 1.5, \"flag\": true}",
    );
    assert!(check("body.list", "is_array", &resp).passed);
    assert!(!check("body.obj", "is_array", &resp).passed);
    assert!(check("body.obj", "is_object", &resp).passed);
    assert!(!check("body.list", "is_object", &resp).passed);
    assert!(check("body.text", "is_string", &resp).passed);
    assert!(!check("body.num", "is_string", &resp).passed);
    assert!(check("body.num", "is_number", &resp).passed);
    assert!(!check("body.text", "is_number", &resp).passed);
    assert!(check("body.flag", "exists", &resp).passed);
}

#[test]
fn path_literal_equality_on_text_form() {
    let resp = response(
        200,
        &[],
        "{\"name\": \"ann\", \"n\": 42, \"f\": 1.5, \"ok\": false, \"none\": null, \"list\": [1, \"a\"], \"obj\": {\"k\": \"v\"}}",
    );
    assert!(check("body.name", "ann", &resp).passed);
    assert!(!check("body.name", "\"ann\"", &resp).passed);
    assert!(check("body.n", "42", &resp).passed);
    assert!(check("body.f", "1.5", &resp).passed);
    assert!(check("body.ok", "false", &resp).passed);
    assert!(check("body.none", "null", &resp).passed);
    assert!(check("body.list", "[1,\"a\"]", &resp).passed);
    assert!(check("body.obj", "{\"k\":\"v\"}", &resp).passed);
    let r = check("body.n", "43", &resp);
    assert!(!r.passed);
    assert_eq!(r.actual.as_deref(), Some("42"));
    assert_eq!(r.message, "body.n: expected 43");
    let r = check("body.n", "42", &resp);
    assert_eq!(r.message, "body.n = 42");
}

#[test]
fn path_with_brackets() {
    let resp = response(200, &[], "[{\"id\": 1}, {\"id\": 2}]");
    assert!(check("body[0].id", "1", &resp).passed);
    assert!(check("body[1].id", "2", &resp).passed);
    assert!(check("body[*].id", "1", &resp).passed);
    assert!(!check("body[*].id", "2", &resp).passed);
    assert!(check("body[2]", "!exists", &resp).passed);
    assert!(check("body[x]", "!exists", &resp).passed);
}

#[test]
fn uuid_and_timestamp_keywords() {
    let resp = response(
        200,
        &[],
        "{\"id\": \"550e8400-e29b-41d4-a716-446655440000\", \"at\": \"2024-01-15T10:30:00Z\", \"naive\": \"2024-01-15T10:30:00\", \"text\": \"nope\", \"n\": 5}",
    );
    assert!(check("body.id", "is_uuid", &resp).passed);
    assert!(!check("body.text", "is_uuid", &resp).passed);
    assert!(!check("body.n", "is_uuid", &resp).passed);
    assert!(check("body.at", "is_iso8601", &resp).passed);
    assert!(check("body.naive", "is_iso8601", &resp).passed);
    assert!(!check("body.text", "is_iso8601", &resp).passed);
    assert!(!check("body.id", "is_iso8601", &resp).passed);
}

#[test]
fn uuid_forms() {
    assert!(is_uuid("550e8400-e29b-41d4-a716-446655440000"));
    assert!(is_uuid("550e8400e29b41d4a716446655440000"));
    assert!(is_uuid("urn:uuid:550e8400-e29b-41d4-a716-446655440000"));
    assert!(!is_uuid("550e8400-e29b-41d4-a716"));
    assert!(!is_uuid(""));
    assert!(!is_uuid("is_uuid"));
}

#[test]
fn timestamp_forms() {
    assert!(is_iso8601("1996-12-19T16:39:57-08:00"));
    assert!(is_iso8601("2024-01-15T10:30:00.123Z"));
    assert!(is_iso8601("2024-01-15T10:30:00"));
    assert!(!is_iso8601("2024-01-15"));
    assert!(!is_iso8601("2024-13-15T10:30:00"));
    assert!(!is_iso8601(""));
    assert!(!is_iso8601("%Y-%m-%dT%H:%M:%S"));
}

#[test]
fn header_assertions() {
    let resp = response(200, &[("Content-Type", "application/json"), ("X-Empty", "")], "{}");
    let r = check("headers.Content-Type", "application/json", &resp);
    assert!(r.passed);
    assert_eq!(r.actual.as_deref(), Some("application/json"));
    assert_eq!(r.message, "headers.Content-Type = application/json");
    let r = check("headers.Content-Type", "text/html", &resp);
    assert!(!r.passed);
    assert_eq!(r.actual.as_deref(), Some("application/json"));
    assert_eq!(
        r.message,
        "headers.Content-Type: expected text/html, got \"application/json\""
    );
    let r = check("headers.content-type", "application/json", &resp);
    assert!(!r.passed);
    assert_eq!(r.actual, None);
    assert_eq!(
        r.message,
        "headers.content-type: expected application/json, got \"\""
    );
    assert!(check("headers.X-Empty", "", &resp).passed);
    assert!(!check("headers.Missing", "", &resp).passed);
}

#[test]
fn header_last_write_wins() {
    let resp = response(200, &[("Set-Cookie", "a=1"), ("Set-Cookie", "b=2")], "{}");
    assert!(check("headers.Set-Cookie", "b=2", &resp).passed);
    assert!(!check("headers.Set-Cookie", "a=1", &resp).passed);
}

#[test]
fn unknown_expression_fails_with_a_diagnostic() {
    let resp = response(200, &[], "{}");
    for expression in ["", "statuses", "Status", "bodyx", "header.X", "headers", "res.status", "body "] {
        let r = check(expression, "200", &resp);
        assert!(!r.passed);
        assert_eq!(r.actual, None);
        assert_eq!(r.message, format!("Unknown assertion expression: {}", expression));
        assert_eq!(r.expression, expression);
    }
}

#[test]
fn every_assertion_is_evaluated() {
    let ctx = ExecutionContext::new(Config::default());
    let file = ReqxFile {
        request: RequestSection { method: "GET".to_string(), url: "u".to_string() },
        headers: StringMap::new(),
        query: StringMap::new(),
        body: None,
        assertions: vec![
            Assertion { expression: "status".to_string(), expected: "500".to_string() },
            Assertion { expression: "nonsense".to_string(), expected: "x".to_string() },
            Assertion { expression: "body.a".to_string(), expected: "1".to_string() },
            Assertion { expression: "status".to_string(), expected: "200".to_string() },
        ],
        post_response: vec![],
    };
    let results = ctx.run_assertions(&file, &response(200, &[], "{\"a\": 1}"));
    assert_eq!(results.len(), 4);
    assert_eq!(
        results.iter().map(|r| r.passed).collect::<Vec<bool>>(),
        vec![false, false, true, true]
    );
    assert!(results.iter().all(|r| !r.message.is_empty()));
    assert_eq!(results[1].message, "Unknown assertion expression: nonsense");
}

#[test]
fn messages_are_never_empty() {
    let resp = response(200, &[], "\"\"");
    for (expression, expected) in [("status", ""), ("body", ""), ("body.", ""), ("headers.", ""), ("", "")] {
        assert!(!check(expression, expected, &resp).message.is_empty());
    }
}

#[test]
fn non_json_body_is_a_string() {
    let resp = response(200, &[], "not json");
    assert!(check("body", "is_string", &resp).passed);
    assert!(check("body.x", "!exists", &resp).passed);
    assert_eq!(resp.body, JsonValue::String("not json".to_string()));
}
