use reqx::config::{
    default_format, default_one, default_retry_delay, resolve_env_vars, Config, ExecutionConfig,
    OutputConfig,
};
use reqx::http::{default_max_redirects, default_timeout, HttpConfig};
use reqx::strmap::StringMap;

fn map_of(pairs: &[(&str, &str)]) -> StringMap {
    let mut map = StringMap::new();
    for (name, text) in pairs {
        map.insert(name.to_string(), text.to_string());
    }
    map
}

#[test]
fn test_default_config() {
    let config = Config::default();
    assert_eq!(config.execution.parallel, 1);
    assert!(config.output.colors);
}

#[test]
fn test_resolve_env_vars() {
    let env = map_of(&[("TEST_VAR", "hello")]);
    let result = resolve_env_vars("${TEST_VAR} world", &env);
    assert_eq!(result, "hello world");
}

#[test]
fn default_config_has_no_variables() {
    let config = Config::default();
    assert_eq!(config.variables.len(), 0);
    assert_eq!(config.output.default_format, "table");
    assert_eq!(config.execution.retries, 0);
    assert_eq!(config.execution.retry_delay, 1000);
}

#[test]
fn default_sections() {
    let output = OutputConfig::default();
    assert_eq!(output.default_format, "table");
    assert!(output.colors);
    let execution = ExecutionConfig::default();
    assert_eq!(execution.parallel, 1);
    assert_eq!(execution.retries, 0);
    assert_eq!(execution.retry_delay, 1000);
    let http = HttpConfig::default();
    assert_eq!(http.timeout, 0);
    assert!(!http.follow_redirects);
    assert_eq!(http.max_redirects, 0);
    assert!(http.proxy.is_none());
    assert!(!http.insecure);
}

#[test]
fn defaults_for_missing_keys() {
    assert_eq!(default_format(), "table");
    assert_eq!(default_one(), 1);
    assert_eq!(default_retry_delay(), 1000);
    assert_eq!(default_timeout(), 30000);
    assert_eq!(default_max_redirects(), 10);
    assert!(reqx::config::default_true());
    assert!(reqx::http::default_true());
}

#[test]
fn unresolved_reference_expands_to_nothing() {
    let env = StringMap::new();
    assert_eq!(resolve_env_vars("a${MISSING}b", &env), "ab");
}

#[test]
fn text_without_reference_is_unchanged() {
    let env = map_of(&[("A", "x")]);
    assert_eq!(resolve_env_vars("plain text", &env), "plain text");
    assert_eq!(resolve_env_vars("", &env), "");
    assert_eq!(resolve_env_vars("$A {A} ${}", &env), "$A {A} ${}");
}

#[test]
fn several_references_expand_in_place() {
    let env = map_of(&[("HOST", "example.com"), ("PORT", "8080")]);
    assert_eq!(
        resolve_env_vars("http://${HOST}:${PORT}/${HOST}", &env),
        "http://example.com:8080/example.com"
    );
}

#[test]
fn expansion_is_not_repeated_on_what_it_inserts() {
    let env = map_of(&[("A", "${B}"), ("B", "deep")]);
    assert_eq!(resolve_env_vars("${A}", &env), "${B}");
}

#[test]
fn unclosed_reference_is_text() {
    let env = map_of(&[("A", "x")]);
    assert_eq!(resolve_env_vars("${A", &env), "${A");
}

#[test]
fn merge_environment_shadows_defaults() {
    let mut config = Config::default();
    config.variables.insert("base_url".to_string(), "http://default".to_string());
    config.variables.insert("kept".to_string(), "1".to_string());
    let declared = map_of(&[("base_url", "${API_BASE_URL}"), ("token", "t-${NAME}")]);
    let env = map_of(&[("API_BASE_URL", "http://ci"), ("NAME", "n")]);
    config.merge_environment(&declared, &env);
    assert_eq!(config.variables.get("base_url").unwrap(), "http://ci");
    assert_eq!(config.variables.get("token").unwrap(), "t-n");
    assert_eq!(config.variables.get("kept").unwrap(), "1");
    assert_eq!(config.variables.len(), 3);
}
