use std::path::PathBuf;
use std::time::Duration;

use reqx::config::Config;
use reqx::http::{RequestError, Response};
use reqx::parser::{Assertion, PostResponseScript, ReqxFile, RequestSection};
use reqx::runtime::execution::{exit_code, stops_run, summarize, RunSummary};
use reqx::runtime::{ExecutionContext, ExecutionResult};
use reqx::strmap::StringMap;

fn response(status: u16, headers: &[(&str, &str)], body: &str) -> Response {
    Response::from_parts(
        status,
        headers.iter().map(|(k, v)| (k.to_string(), v.to_string())).collect(),
        body,
        Duration::from_millis(3),
    )
}

fn descriptor(url: &str, assertions: &[(&str, &str)], captures: &[(&str, &str)]) -> ReqxFile {
    ReqxFile {
        request: RequestSection { method: "GET".to_string(), url: url.to_string() },
        headers: StringMap::new(),
        query: StringMap::new(),
        body: None,
        assertions: assertions
            .iter()
            .map(|(e, x)| Assertion { expression: e.to_string(), expected: x.to_string() })
            .collect(),
        post_response: captures
            .iter()
            .map(|(v, e)| PostResponseScript { variable: v.to_string(), expression: e.to_string() })
            .collect(),
    }
}

fn value(expression: &str, response: &Response) -> String {
    ExecutionContext::new(Config::default()).evaluate_expression(expression, response)
}

#[test]
fn length_of_items_is_captured_and_seen_later() {
    let mut ctx = ExecutionContext::new(Config::default());
    let file = descriptor("u", &[], &[("count", "res.body.items | length")]);
    let resp = response(200, &[], "{\"items\":[1,2,3]}");
    assert!(ctx.run_post_response(&file, &resp).is_ok());
    assert_eq!(ctx.get_variable("count").unwrap(), "3");
    assert_eq!(ctx.interpolate_string("{{count}}"), "3");
    let next = descriptor("http://h/page/{{count}}", &[], &[]);
    assert_eq!(ctx.interpolate(&next).unwrap().request.url, "http://h/page/3");
}

#[test]
fn capture_feeds_the_next_descriptor() {
    let a = descriptor("http://h/login", &[("status", "200")], &[("token", "res.body.token")]);
    let b = descriptor("http://h/me?t={{token}}", &[], &[]);

    let mut ctx = ExecutionContext::new(Config::default());
    let sent_a = ctx.interpolate(&a).unwrap();
    let result = ctx.conclude(
        PathBuf::from("a.reqx"),
        &sent_a,
        &response(200, &[], "{\"token\": \"abc123\"}"),
        Duration::from_millis(1),
    );
    assert!(!result.failed);
    let sent_b = ctx.interpolate(&b).unwrap();
    assert_eq!(sent_b.request.url, "http://h/me?t=abc123");

    let alone = ExecutionContext::new(Config::default());
    assert_eq!(alone.interpolate(&b).unwrap().request.url, "http://h/me?t=");
}

#[test]
fn captures_do_not_run_after_a_failed_assertion() {
    let a = descriptor("u", &[("status", "200")], &[("token", "res.body.token")]);
    let mut ctx = ExecutionContext::new(Config::default());
    let result = ctx.conclude(
        PathBuf::from("a.reqx"),
        &a,
        &response(500, &[], "{\"token\": \"abc\"}"),
        Duration::from_millis(1),
    );
    assert!(result.failed);
    assert_eq!(result.status, Some(500));
    assert_eq!(result.assertions.len(), 1);
    assert!(result.error.is_none());
    assert!(ctx.get_variable("token").is_none());
}

#[test]
fn conclude_builds_the_result() {
    let a = descriptor("http://h/x", &[("status", "201"), ("body.id", "exists")], &[]);
    let mut ctx = ExecutionContext::new(Config::default());
    let result = ctx.conclude(
        PathBuf::from("dir/a.reqx"),
        &a,
        &response(201, &[], "{\"id\": 1}"),
        Duration::from_millis(42),
    );
    assert_eq!(result.file, PathBuf::from("dir/a.reqx"));
    assert_eq!(result.method, "GET");
    assert_eq!(result.url, "http://h/x");
    assert_eq!(result.status, Some(201));
    assert_eq!(result.duration, Duration::from_millis(42));
    assert_eq!(result.assertions.len(), 2);
    assert!(result.assertions.iter().all(|a| a.passed));
    assert!(!result.failed);
    assert!(result.error.is_none());
}

#[test]
fn later_capture_shadows_earlier() {
    let mut ctx = ExecutionContext::new(Config::default());
    ctx.set_variable("v".to_string(), "old".to_string());
    let file = descriptor("u", &[], &[("v", "res.status"), ("w", "res.body.a"), ("v", "res.body.b")]);
    ctx.run_post_response(&file, &response(204, &[], "{\"a\": 1, \"b\": \"two\"}")).unwrap();
    assert_eq!(ctx.get_variable("v").unwrap(), "two");
    assert_eq!(ctx.get_variable("w").unwrap(), "1");
}

#[test]
fn unresolved_capture_stores_the_empty_text() {
    let mut ctx = ExecutionContext::new(Config::default());
    ctx.set_variable("v".to_string(), "old".to_string());
    let file = descriptor("u", &[], &[("v", "res.body.missing"), ("u", "nonsense")]);
    ctx.run_post_response(&file, &response(200, &[], "{}")).unwrap();
    assert_eq!(ctx.get_variable("v").unwrap(), "");
    assert_eq!(ctx.get_variable("u").unwrap(), "");
}

#[test]
fn body_status_and_header_values() {
    let resp = response(
        201,
        &[("Location", "/users/7"), ("X-Pipe", "a | b")],
        "{\"user\": {\"id\": 7, \"name\": \"ann\"}, \"tags\": [\"x\", \"y\"]}",
    );
    assert_eq!(value("res.body.user.id", &resp), "7");
    assert_eq!(value("res.body.user.name", &resp), "ann");
    assert_eq!(value("res.body.tags", &resp), "[\"x\",\"y\"]");
    assert_eq!(value("res.body.tags[1]", &resp), "y");
    assert_eq!(value("res.body.tags[*]", &resp), "x");
    assert_eq!(value("res.body", &resp), "{\"tags\":[\"x\",\"y\"],\"user\":{\"id\":7,\"name\":\"ann\"}}");
    assert_eq!(value("res.status", &resp), "201");
    assert_eq!(value("res.headers.Location", &resp), "/users/7");
    assert_eq!(value("res.headers.location", &resp), "");
    assert_eq!(value("res.headers.Missing", &resp), "");
    assert_eq!(value("res.body.missing", &resp), "");
    assert_eq!(value("res.other", &resp), "");
    assert_eq!(value("", &resp), "");
    assert_eq!(value("body.user.id", &resp), "");
}

#[test]
fn pipe_length() {
    let resp = response(
        200,
        &[],
        "{\"items\": [1, 2, 3], \"none\": [], \"text\": \"hello\", \"quoted\": \"\\\"héllo\\\"\", \"n\": 12345, \"obj\": {\"a\": 1}, \"accent\": \"é\"}",
    );
    assert_eq!(value("res.body.items | length", &resp), "3");
    assert_eq!(value("res.body.none | length", &resp), "0");
    assert_eq!(value("res.body.text | length", &resp), "5");
    assert_eq!(value("res.body.quoted | length", &resp), "5");
    assert_eq!(value("res.body.n | length", &resp), "5");
    assert_eq!(value("res.body.obj | length", &resp), "7");
    assert_eq!(value("res.body.accent | length", &resp), "1");
    assert_eq!(value("res.body.missing | length", &resp), "0");
    assert_eq!(value("res.status | length", &resp), "3");
}

#[test]
fn pipe_first_and_last() {
    let resp = response(
        200,
        &[],
        "{\"items\": [\"a\", 2, {\"k\": null}], \"one\": [true], \"none\": [], \"text\": \"hello\"}",
    );
    assert_eq!(value("res.body.items | first", &resp), "a");
    assert_eq!(value("res.body.items | last", &resp), "{\"k\":null}");
    assert_eq!(value("res.body.one | first", &resp), "true");
    assert_eq!(value("res.body.one | last", &resp), "true");
    assert_eq!(value("res.body.none | first", &resp), "");
    assert_eq!(value("res.body.none | last", &resp), "");
    assert_eq!(value("res.body.text | first", &resp), "");
    assert_eq!(value("res.body.missing | last", &resp), "");
}

#[test]
fn pipe_with_white_space_and_other_functions() {
    let resp = response(200, &[], "{\"items\": [1, 2]}");
    assert_eq!(value("res.body.items  |   length ", &resp), "2");
    assert_eq!(value("\tres.body.items | length", &resp), "2");
    assert_eq!(value("res.body.items | unknown", &resp), "[1,2]");
    assert_eq!(value("res.body.items | Length", &resp), "[1,2]");
    assert_eq!(value("res.body.items|length", &resp), "");
    assert_eq!(value("res.body.items | length | length", &resp), "");
    assert_eq!(value("res.body.items | ", &resp), "[1,2]");
}

#[test]
fn a_path_that_resolves_wins_over_the_pipe() {
    let resp = response(200, &[], "{\"a | length\": \"direct\", \"a\": [1]}");
    assert_eq!(value("res.body.a | length", &resp), "direct");
}

#[test]
fn apply_function_on_texts() {
    let ctx = ExecutionContext::new(Config::default());
    assert_eq!(ctx.apply_function("length", "[1,2,3]"), "3");
    assert_eq!(ctx.apply_function("length", "\"abc\""), "3");
    assert_eq!(ctx.apply_function("length", "abc"), "3");
    assert_eq!(ctx.apply_function("length", "héllo"), "5");
    assert_eq!(ctx.apply_function("length", "\"héllo\""), "5");
    assert_eq!(ctx.apply_function("length", "日本語 text"), "8");
    assert_eq!(ctx.apply_function("length", ""), "0");
    assert_eq!(ctx.apply_function("length", "{\"a\":1}"), "7");
    assert_eq!(ctx.apply_function("first", "[\"x\",\"y\"]"), "x");
    assert_eq!(ctx.apply_function("last", "[\"x\",\"y\"]"), "y");
    assert_eq!(ctx.apply_function("first", "[[1],[2]]"), "[1]");
    assert_eq!(ctx.apply_function("first", "x"), "");
    assert_eq!(ctx.apply_function("upper", "x"), "x");
    assert_eq!(ctx.apply_function("", "x"), "x");
}

#[test]
fn failures_without_a_response() {
    let file = descriptor("http://{{host}}/x", &[("status", "200")], &[]);
    let r = ExecutionResult::interpolation_failed(
        PathBuf::from("f.reqx"),
        &file,
        Duration::from_millis(1),
        "bad placeholder",
    );
    assert!(r.failed);
    assert_eq!(r.status, None);
    assert!(r.assertions.is_empty());
    assert_eq!(r.url, "http://{{host}}/x");
    assert_eq!(r.error.as_deref(), Some("Interpolation error: bad placeholder"));

    let sent = descriptor("http://h/x", &[("status", "200")], &[]);
    let r = ExecutionResult::request_failed(
        PathBuf::from("f.reqx"),
        &sent,
        Duration::from_millis(1),
        &RequestError::Network("connection refused".to_string()),
    );
    assert!(r.failed);
    assert_eq!(r.status, None);
    assert_eq!(r.method, "GET");
    assert_eq!(r.url, "http://h/x");
    assert_eq!(r.error.as_deref(), Some("HTTP error: Network error: connection refused"));
}

#[test]
fn summary_and_exit_code() {
    let ok = |failed: bool| {
        let mut ctx = ExecutionContext::new(Config::default());
        let file = descriptor("u", &[("status", if failed { "500" } else { "200" })], &[]);
        ctx.conclude(PathBuf::from("f"), &file, &response(200, &[], "{}"), Duration::from_millis(1))
    };
    let results = vec![ok(false), ok(true), ok(false), ok(true), ok(true)];
    assert_eq!(summarize(&results), RunSummary { total: 5, passed: 2, failed: 3 });
    assert_eq!(exit_code(&results), 1);
    let fine = vec![ok(false), ok(false)];
    assert_eq!(summarize(&fine), RunSummary { total: 2, passed: 2, failed: 0 });
    assert_eq!(exit_code(&fine), 0);
    assert_eq!(summarize(&vec![]), RunSummary { total: 0, passed: 0, failed: 0 });
    assert_eq!(exit_code(&vec![]), 0);
    assert!(stops_run(&results[1], true));
    assert!(!stops_run(&results[1], false));
    assert!(!stops_run(&results[0], true));
}
