use reqx::config::Config;
use reqx::dynamic::{generate, number_of, rand_number, timed_value};
use reqx::json::JsonValue;
use reqx::parser::{Assertion, BodySection, PostResponseScript, ReqxFile, RequestSection};
use reqx::runtime::ExecutionContext;
use reqx::strmap::StringMap;
use reqx::template::{render_template, scan_dynamic_tokens, DynamicToken};

fn map_of(pairs: &[(&str, &str)]) -> StringMap {
    let mut map = StringMap::new();
    for (name, text) in pairs {
        map.insert(name.to_string(), text.to_string());
    }
    map
}

fn context(vars: &[(&str, &str)], env: &[(&str, &str)]) -> ExecutionContext {
    let mut ctx = ExecutionContext::new(Config::default());
    for (name, text) in vars {
        ctx.set_variable(name.to_string(), text.to_string());
    }
    ctx.set_environment(map_of(env));
    ctx
}

fn is_hyphenated_uuid(text: &str) -> bool {
    let chars: Vec<char> = text.chars().collect();
    chars.len() == 36
        && chars.iter().enumerate().all(|(i, c)| {
            if i == 8 || i == 13 || i == 18 || i == 23 {
                *c == '-'
            } else {
                c.is_ascii_hexdigit()
            }
        })
}

#[test]
fn text_without_placeholder_is_unchanged() {
    let ctx = context(&[("a", "1")], &[("HOME", "/root")]);
    for input in [
        "",
        "plain",
        "https://api.example.com/users?id=1",
        "{a}",
        "{{}}",
        "{{a}",
        "{ {a} }",
        "}}a{{",
        "{{",
    ] {
        assert_eq!(ctx.interpolate_string(input), input);
    }
}

#[test]
fn variable_in_scope_is_substituted_exactly() {
    let ctx = context(&[("name", "value with spaces"), ("empty", "")], &[]);
    assert_eq!(ctx.interpolate_string("{{name}}"), "value with spaces");
    assert_eq!(ctx.interpolate_string("{{empty}}"), "");
    assert_eq!(ctx.interpolate_string("<{{name}}>"), "<value with spaces>");
}

#[test]
fn interpolating_the_result_again_changes_nothing() {
    let ctx = context(&[("base_url", "http://localhost:3000")], &[]);
    let once = ctx.interpolate_string("{{base_url}}/users");
    assert_eq!(once, "http://localhost:3000/users");
    let twice = ctx.interpolate_string(&once);
    assert_eq!(twice, once);
}

#[test]
fn value_with_placeholder_syntax_is_not_rendered_again_in_the_same_pass() {
    let ctx = context(&[("a", "{{b}}"), ("b", "deep")], &[]);
    assert_eq!(ctx.interpolate_string("{{a}}"), "{{b}}");
    assert_eq!(ctx.interpolate_string("{{a}}{{b}}"), "{{b}}deep");
}

#[test]
fn unresolved_name_is_empty() {
    let ctx = context(&[], &[]);
    assert_eq!(ctx.interpolate_string("a{{missing}}b"), "ab");
    assert_eq!(ctx.interpolate_string("{{$MISSING_ENV}}"), "");
}

#[test]
fn scope_shadows_environment() {
    let ctx = context(&[("NAME", "scope")], &[("NAME", "env"), ("OTHER", "other")]);
    assert_eq!(ctx.interpolate_string("{{NAME}}"), "scope");
    assert_eq!(ctx.interpolate_string("{{OTHER}}"), "other");
    assert_eq!(ctx.interpolate_string("{{$NAME}}"), "env");
    assert_eq!(ctx.interpolate_string("{{$OTHER}}"), "other");
}

#[test]
fn dollar_name_skips_the_scope() {
    let ctx = context(&[("TOKEN", "scope"), ("$TOKEN", "odd")], &[]);
    assert_eq!(ctx.interpolate_string("{{$TOKEN}}"), "");
}

#[test]
fn several_placeholders_left_to_right() {
    let ctx = context(&[("a", "1"), ("b", "2")], &[]);
    assert_eq!(ctx.interpolate_string("{{a}}-{{b}}-{{a}}"), "1-2-1");
    assert_eq!(ctx.interpolate_string("{{a}}{{b}}"), "12");
}

#[test]
fn name_runs_up_to_the_next_closing_brace() {
    let ctx = context(&[("{a", "brace"), ("a b", "space"), ("a", "1")], &[]);
    assert_eq!(ctx.interpolate_string("{{{a}}"), "brace");
    assert_eq!(ctx.interpolate_string("{{a b}}"), "space");
    assert_eq!(ctx.interpolate_string("{{a}}}"), "1}");
    assert_eq!(ctx.interpolate_string("{{a}x}}"), "{{a}x}}");
}

#[test]
fn uuid_twice_gives_two_valid_distinct_values() {
    let ctx = context(&[], &[]);
    let out = ctx.interpolate_string("{{$uuid}} {{$uuid}}");
    let parts: Vec<&str> = out.split(' ').collect();
    assert_eq!(parts.len(), 2);
    assert!(is_hyphenated_uuid(parts[0]));
    assert!(is_hyphenated_uuid(parts[1]));
    assert_ne!(parts[0], parts[1]);
    assert!(reqx::checks::is_uuid(parts[0]));
    assert!(reqx::checks::is_uuid(parts[1]));
}

#[test]
fn reserved_names_are_case_sensitive() {
    let ctx = context(&[], &[("UUID", "from-env")]);
    assert_eq!(ctx.interpolate_string("{{$UUID}}"), "from-env");
}

#[test]
fn timestamp_is_a_decimal_number_of_seconds() {
    let ctx = context(&[], &[]);
    let out = ctx.interpolate_string("{{$timestamp}}");
    let seconds: i64 = out.parse().unwrap();
    assert!(seconds > 1_600_000_000);
}

#[test]
fn random_is_below_one_million() {
    let ctx = context(&[], &[]);
    let out = ctx.interpolate_string("{{$random}}");
    let n: u32 = out.parse().unwrap();
    assert!(n < 1_000_000);
    assert!(rand_number() < 1_000_000);
}

#[test]
fn date_and_datetime_have_their_form() {
    let ctx = context(&[], &[]);
    let date = ctx.interpolate_string("{{$date}}");
    let chars: Vec<char> = date.chars().collect();
    assert_eq!(chars.len(), 10);
    assert_eq!(chars[4], '-');
    assert_eq!(chars[7], '-');
    assert!(chars.iter().enumerate().all(|(i, c)| i == 4 || i == 7 || c.is_ascii_digit()));
    let datetime = ctx.interpolate_string("{{$datetime}}");
    assert!(reqx::checks::is_iso8601(&datetime));
    assert!(datetime.starts_with(&date[..4]));
}

#[test]
fn generate_makes_a_value_for_each_token() {
    assert!(is_hyphenated_uuid(&generate(DynamicToken::Uuid)));
    assert!(generate(DynamicToken::Timestamp).parse::<i64>().is_ok());
    assert!(generate(DynamicToken::Random).parse::<u32>().unwrap() < 1_000_000);
    assert_eq!(generate(DynamicToken::Date).chars().count(), 10);
    assert!(reqx::checks::is_iso8601(&generate(DynamicToken::Datetime)));
}

#[test]
fn scan_finds_reserved_names_in_order() {
    assert_eq!(
        scan_dynamic_tokens("{{$date}} {{x}} {{$uuid}}{{$uuid}} {{$random}} {{$timestamp}} {{$datetime}}"),
        vec![
            DynamicToken::Date,
            DynamicToken::Uuid,
            DynamicToken::Uuid,
            DynamicToken::Random,
            DynamicToken::Timestamp,
            DynamicToken::Datetime,
        ]
    );
    assert_eq!(scan_dynamic_tokens("no tokens {{here}}"), vec![]);
    assert_eq!(scan_dynamic_tokens("{{ $uuid }}"), vec![]);
}

#[test]
fn render_uses_fresh_values_by_occurrence() {
    let scope = map_of(&[("x", "X")]);
    let env = StringMap::new();
    let fresh = vec!["one".to_string(), "two".to_string()];
    assert_eq!(
        render_template("{{$uuid}}/{{x}}/{{$uuid}}", &scope, &env, &fresh),
        "one/X/two"
    );
    assert_eq!(render_template("{{$date}}", &scope, &env, &vec![]), "");
    assert_eq!(
        render_template("{{$uuid}}{{$uuid}}{{$uuid}}", &scope, &env, &fresh),
        "onetwo"
    );
}

#[test]
fn json_strings_are_interpolated_and_the_rest_is_kept() {
    let ctx = context(&[("name", "ann"), ("n", "5")], &[]);
    let doc = JsonValue::parse(
        "{\"user\": \"{{name}}\", \"count\": 3, \"ok\": true, \"none\": null, \"list\": [\"{{n}}\", 2, [\"x{{n}}\"]], \"{{name}}\": \"key stays\"}",
    )
    .unwrap();
    let out = ctx.interpolate_json(&doc);
    let expected = JsonValue::parse(
        "{\"user\": \"ann\", \"count\": 3, \"ok\": true, \"none\": null, \"list\": [\"5\", 2, [\"x5\"]], \"{{name}}\": \"key stays\"}",
    )
    .unwrap();
    assert_eq!(out, expected);
}

#[test]
fn descriptor_is_interpolated_into_a_new_one() {
    let ctx = context(&[("base_url", "http://h"), ("token", "T"), ("id", "7")], &[]);
    let file = ReqxFile {
        request: RequestSection { method: "POST".to_string(), url: "{{base_url}}/users/{{id}}".to_string() },
        headers: map_of(&[("Authorization", "Bearer {{token}}"), ("Accept", "application/json")]),
        query: map_of(&[("page", "{{id}}")]),
        body: Some(BodySection::Json(JsonValue::parse("{\"id\": \"{{id}}\"}").unwrap())),
        assertions: vec![Assertion { expression: "status".to_string(), expected: "{{id}}".to_string() }],
        post_response: vec![PostResponseScript {
            variable: "v".to_string(),
            expression: "res.body.{{id}}".to_string(),
        }],
    };
    let out = ctx.interpolate(&file).unwrap();
    assert_eq!(out.request.method, "POST");
    assert_eq!(out.request.url, "http://h/users/7");
    assert_eq!(out.headers.get("Authorization").unwrap(), "Bearer T");
    assert_eq!(out.headers.get("Accept").unwrap(), "application/json");
    assert_eq!(out.headers.len(), 2);
    assert_eq!(out.query.get("page").unwrap(), "7");
    match out.body {
        Some(BodySection::Json(doc)) => {
            assert_eq!(doc, JsonValue::parse("{\"id\": \"7\"}").unwrap())
        }
        _ => panic!("the body is JSON"),
    }
    assert_eq!(out.assertions.len(), 1);
    assert_eq!(out.assertions[0].expected, "{{id}}");
    assert_eq!(out.post_response[0].expression, "res.body.{{id}}");
    assert_eq!(file.request.url, "{{base_url}}/users/{{id}}");
    assert_eq!(file.headers.get("Authorization").unwrap(), "Bearer {{token}}");
}

#[test]
fn raw_and_form_bodies_are_kept() {
    let ctx = context(&[("a", "1")], &[]);
    let mut file = ReqxFile {
        request: RequestSection { method: "PUT".to_string(), url: "u".to_string() },
        headers: StringMap::new(),
        query: StringMap::new(),
        body: Some(BodySection::Raw("raw {{a}}".to_string())),
        assertions: vec![],
        post_response: vec![],
    };
    match ctx.interpolate(&file).unwrap().body {
        Some(BodySection::Raw(text)) => assert_eq!(text, "raw {{a}}"),
        _ => panic!("the body is raw"),
    }
    file.body = Some(BodySection::FormData(map_of(&[("k", "{{a}}")])));
    match ctx.interpolate(&file).unwrap().body {
        Some(BodySection::FormData(form)) => assert_eq!(form.get("k").unwrap(), "{{a}}"),
        _ => panic!("the body is a form"),
    }
    file.body = None;
    assert!(ctx.interpolate(&file).unwrap().body.is_none());
}

#[test]
fn context_starts_from_the_configuration() {
    let mut config = Config::default();
    config.variables.insert("base_url".to_string(), "http://c".to_string());
    let mut ctx = ExecutionContext::new(config);
    assert_eq!(ctx.get_variable("base_url").unwrap(), "http://c");
    assert!(ctx.get_variable("other").is_none());
    assert_eq!(ctx.config.variables.get("base_url").unwrap(), "http://c");
    ctx.set_variable("base_url".to_string(), "http://override".to_string());
    assert_eq!(ctx.get_variable("base_url").unwrap(), "http://override");
    assert_eq!(ctx.config.variables.get("base_url").unwrap(), "http://c");
}

#[test]
fn overrides_are_applied_in_order() {
    let mut ctx = context(&[("a", "0")], &[]);
    ctx.apply_overrides(&vec![
        ("a".to_string(), "1".to_string()),
        ("b".to_string(), "2".to_string()),
        ("a".to_string(), "3".to_string()),
    ]);
    assert_eq!(ctx.get_variable("a").unwrap(), "3");
    assert_eq!(ctx.get_variable("b").unwrap(), "2");
}

#[test]
fn number_of_a_clock_reading() {
    assert_eq!(number_of(0), 0);
    assert_eq!(number_of(999_999), 999_999);
    assert_eq!(number_of(1_000_000), 0);
    assert_eq!(number_of(1_700_000_000_123_456_789), 456_789);
    assert_eq!(number_of(u128::MAX), (u128::MAX % 1_000_000) as u32);
}

#[test]
fn values_at_a_clock_reading() {
    assert_eq!(timed_value(DynamicToken::Timestamp, 0, 0), "0");
    assert_eq!(timed_value(DynamicToken::Timestamp, 1_700_000_000, 5), "1700000000");
    assert_eq!(timed_value(DynamicToken::Date, 0, 0), "1970-01-01");
    assert_eq!(timed_value(DynamicToken::Date, 1_700_000_000, 0), "2023-11-14");
    assert_eq!(timed_value(DynamicToken::Date, 253_402_300_799, 0), "9999-12-31");
    assert_eq!(timed_value(DynamicToken::Datetime, 0, 0), "1970-01-01T00:00:00+00:00");
    assert_eq!(
        timed_value(DynamicToken::Datetime, 1_700_000_000, 123_000_000),
        "2023-11-14T22:13:20.123+00:00"
    );
    assert_eq!(
        timed_value(DynamicToken::Datetime, 253_402_300_799, 999_999_999),
        "9999-12-31T23:59:59.999999999+00:00"
    );
    assert!(reqx::checks::is_iso8601(&timed_value(DynamicToken::Datetime, 253_402_300_799, 999_999_999)));
    assert!(reqx::checks::is_iso8601(&timed_value(DynamicToken::Datetime, 951_782_400, 1)));
}

#[test]
fn values_at_readings_out_of_range_do_not_fail() {
    assert_eq!(timed_value(DynamicToken::Date, u64::MAX, 0), "1969-12-31");
    assert_eq!(timed_value(DynamicToken::Datetime, 1 << 62, 0), "1970-01-01T00:00:00+00:00");
    assert_eq!(timed_value(DynamicToken::Datetime, 0, u32::MAX), "1970-01-01T00:00:00+00:00");
    assert!(!timed_value(DynamicToken::Date, 253_402_300_800, 0).is_empty());
    assert_eq!(timed_value(DynamicToken::Timestamp, u64::MAX, 0), "18446744073709551615");
}

#[test]
fn two_uuids_stand_at_their_places() {
    let ctx = context(&[], &[]);
    let s = ctx.interpolate_string("{{$uuid}}/{{$uuid}}");
    assert_eq!(s.len(), 73);
    assert_eq!(s.as_bytes()[36], b'/');
    assert!(is_hyphenated_uuid(&s[..36]));
    assert!(is_hyphenated_uuid(&s[37..]));
    assert!(s[..36].chars().all(|c| !c.is_ascii_uppercase()));
    assert!(reqx::checks::is_uuid(&s[..36]));
    assert!(reqx::checks::is_uuid(&s[37..]));
    assert_ne!(&s[..36], &s[37..]);
}

#[test]
fn a_second_pass_changes_nothing_without_braces_in_values() {
    let ctx = context(&[("a", "one"), ("b", "two}}"), ("c", "")], &[]);
    let once = ctx.interpolate_string("x {{a}}-{{b}} }} {{c}}{{a}} y");
    assert_eq!(once, "x one-two}} }} one y");
    assert_eq!(ctx.interpolate_string(&once), once);
}
