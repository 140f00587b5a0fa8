use std::time::Duration;

use reqx::http::{after_failure, request_url, RequestError, Response, RetryDecision};
use reqx::json::JsonValue;
use reqx::strmap::StringMap;

fn map_of(pairs: &[(&str, &str)]) -> StringMap {
    let mut map = StringMap::new();
    for (name, text) in pairs {
        map.insert(name.to_string(), text.to_string());
    }
    map
}

#[test]
fn network_class_failures() {
    assert!(RequestError::Network("x".to_string()).is_network_error());
    assert!(RequestError::Timeout.is_network_error());
    assert!(!RequestError::InvalidMethod("GETT".to_string()).is_network_error());
    assert!(!RequestError::InvalidHeader("Bad Name".to_string()).is_network_error());
}

#[test]
fn failure_messages() {
    assert_eq!(RequestError::Network("refused".to_string()).message(), "Network error: refused");
    assert_eq!(
        RequestError::InvalidMethod("GETT".to_string()).message(),
        "Invalid HTTP method: GETT"
    );
    assert_eq!(RequestError::InvalidHeader("A B".to_string()).message(), "Invalid header: A B");
    assert_eq!(RequestError::Timeout.message(), "Timeout");
}

#[test]
fn retry_only_network_failures_while_attempts_are_left() {
    let network = RequestError::Network("x".to_string());
    assert_eq!(after_failure(&network, 0, 2), RetryDecision::Retry);
    assert_eq!(after_failure(&network, 1, 2), RetryDecision::Retry);
    assert_eq!(after_failure(&network, 2, 2), RetryDecision::GiveUp);
    assert_eq!(after_failure(&network, 0, 0), RetryDecision::GiveUp);
    assert_eq!(after_failure(&RequestError::Timeout, 0, 1), RetryDecision::Retry);
    assert_eq!(
        after_failure(&RequestError::InvalidMethod("X".to_string()), 0, 5),
        RetryDecision::GiveUp
    );
    assert_eq!(
        after_failure(&RequestError::InvalidHeader("X".to_string()), 0, 5),
        RetryDecision::GiveUp
    );
}

#[test]
fn url_without_query_is_unchanged() {
    assert_eq!(request_url("http://h/x", &StringMap::new()), "http://h/x");
    assert_eq!(request_url("http://h/x?a=1", &StringMap::new()), "http://h/x?a=1");
}

#[test]
fn url_with_query() {
    assert_eq!(request_url("http://h/x", &map_of(&[("a", "1")])), "http://h/x?a=1");
    assert_eq!(
        request_url("http://h/x", &map_of(&[("a", "1"), ("b", "two"), ("c", "")])),
        "http://h/x?a=1&b=two&c="
    );
    assert_eq!(
        request_url("http://h/x?z=0", &map_of(&[("a", "1"), ("b", "2")])),
        "http://h/x?z=0&a=1&b=2"
    );
    assert_eq!(request_url("", &map_of(&[("a", "1")])), "?a=1");
}

#[test]
fn response_from_parts() {
    let r = Response::from_parts(
        200,
        vec![
            ("A".to_string(), "1".to_string()),
            ("B".to_string(), "2".to_string()),
            ("A".to_string(), "3".to_string()),
        ],
        "{\"k\": [1]}",
        Duration::from_millis(9),
    );
    assert_eq!(r.status, 200);
    assert_eq!(r.headers.get("A").unwrap(), "3");
    assert_eq!(r.headers.get("B").unwrap(), "2");
    assert_eq!(r.headers.len(), 2);
    assert_eq!(r.body, JsonValue::parse("{\"k\":[1]}").unwrap());
    assert_eq!(r.duration, Duration::from_millis(9));
    let r = Response::from_parts(500, vec![], "Internal Server Error", Duration::from_millis(1));
    assert_eq!(r.body, JsonValue::String("Internal Server Error".to_string()));
}
