use std::path::PathBuf;
use std::time::Duration;

use reqx::output::junit::{
    case_name, group_suites, junit_text, name_or, suite_name, JunitCase, JunitSuite, SuiteGroup,
};
use reqx::runtime::{AssertionResult, ExecutionResult};

fn outcome(passed: bool, message: &str) -> AssertionResult {
    AssertionResult {
        expression: "e".to_string(),
        expected: "x".to_string(),
        actual: None,
        passed,
        message: message.to_string(),
    }
}

fn result(file: &str, status: Option<u16>, outcomes: Vec<AssertionResult>, error: Option<&str>) -> ExecutionResult {
    let failed = error.is_some() || outcomes.iter().any(|o| !o.passed);
    ExecutionResult {
        file: PathBuf::from(file),
        method: "GET".to_string(),
        url: "http://h/a?b=1&c=<2>".to_string(),
        status,
        duration: Duration::from_millis(1500),
        assertions: outcomes,
        failed,
        error: error.map(|e| e.to_string()),
    }
}

fn names(list: &[&str]) -> Vec<String> {
    list.iter().map(|n| n.to_string()).collect()
}

#[test]
fn suites_are_grouped_in_order_of_first_appearance() {
    assert_eq!(
        group_suites(&names(&["users", "orders", "users", "default", "orders", "users"])),
        vec![
            SuiteGroup { name: "users".to_string(), members: vec![0, 2, 5] },
            SuiteGroup { name: "orders".to_string(), members: vec![1, 4] },
            SuiteGroup { name: "default".to_string(), members: vec![3] },
        ]
    );
    assert_eq!(group_suites(&vec![]), vec![]);
    assert_eq!(
        group_suites(&names(&["a"])),
        vec![SuiteGroup { name: "a".to_string(), members: vec![0] }]
    );
}

#[test]
fn names_of_suites_and_cases() {
    let r = result("api/users/list.reqx", Some(200), vec![], None);
    assert_eq!(suite_name(&r), "users");
    assert_eq!(case_name(&r), "list.reqx");
    let r = result("list.reqx", Some(200), vec![], None);
    assert_eq!(suite_name(&r), "default");
    assert_eq!(case_name(&r), "list.reqx");
    let r = result("/", Some(200), vec![], None);
    assert_eq!(suite_name(&r), "default");
    assert_eq!(case_name(&r), "unknown");
}

#[test]
fn report_of_no_suites() {
    assert_eq!(
        junit_text(&vec![], "0.000"),
        "<?xml version=\"1.0\" encoding=\"UTF-8\"?>\n<testsuites name=\"reqx\" tests=\"0\" failures=\"0\" errors=\"0\" time=\"0.000\">\n</testsuites>\n"
    );
}

#[test]
fn report_of_suites() {
    let ok = result("api/users/list.reqx", Some(200), vec![outcome(true, "status = 200")], None);
    let bad = result(
        "api/users/create.reqx",
        Some(500),
        vec![
            outcome(false, "status: expected 201, got 500"),
            outcome(true, "fine"),
            outcome(false, "body.name: expected \"ann\""),
        ],
        None,
    );
    let broken = result("x.reqx", None, vec![], Some("HTTP error: <refused>"));
    let suites = vec![
        JunitSuite {
            name: "users".to_string(),
            time: "3.000".to_string(),
            cases: vec![
                JunitCase { result: &ok, name: "list.reqx".to_string(), time: "1.500".to_string() },
                JunitCase { result: &bad, name: "create.reqx".to_string(), time: "1.500".to_string() },
            ],
        },
        JunitSuite {
            name: "a&b".to_string(),
            time: "1.500".to_string(),
            cases: vec![JunitCase {
                result: &broken,
                name: "x.reqx".to_string(),
                time: "1.500".to_string(),
            }],
        },
    ];
    let expected = "<?xml version=\"1.0\" encoding=\"UTF-8\"?>\n\
<testsuites name=\"reqx\" tests=\"3\" failures=\"2\" errors=\"0\" time=\"4.500\">\n\
\x20 <testsuite name=\"users\" tests=\"2\" failures=\"1\" time=\"3.000\">\n\
\x20   <testcase name=\"list.reqx\" classname=\"users\" time=\"1.500\">\n\
\x20     <properties>\n\
\x20       <property name=\"method\" value=\"GET\"/>\n\
\x20       <property name=\"url\" value=\"http://h/a?b=1&amp;c=&lt;2&gt;\"/>\n\
\x20       <property name=\"status\" value=\"200\"/>\n\
\x20     </properties>\n\
\x20   </testcase>\n\
\x20   <testcase name=\"create.reqx\" classname=\"users\" time=\"1.500\">\n\
\x20     <properties>\n\
\x20       <property name=\"method\" value=\"GET\"/>\n\
\x20       <property name=\"url\" value=\"http://h/a?b=1&amp;c=&lt;2&gt;\"/>\n\
\x20       <property name=\"status\" value=\"500\"/>\n\
\x20     </properties>\n\
\x20     <failure message=\"status: expected 201, got 500; body.name: expected &quot;ann&quot;\" type=\"AssertionError\">\n\
\n\
\x20     </failure>\n\
\x20   </testcase>\n\
\x20 </testsuite>\n\
\x20 <testsuite name=\"a&amp;b\" tests=\"1\" failures=\"1\" time=\"1.500\">\n\
\x20   <testcase name=\"x.reqx\" classname=\"a&amp;b\" time=\"1.500\">\n\
\x20     <properties>\n\
\x20       <property name=\"method\" value=\"GET\"/>\n\
\x20       <property name=\"url\" value=\"http://h/a?b=1&amp;c=&lt;2&gt;\"/>\n\
\x20     </properties>\n\
\x20     <failure message=\"\" type=\"AssertionError\">\n\
HTTP error: &lt;refused&gt;\n\
\x20     </failure>\n\
\x20   </testcase>\n\
\x20 </testsuite>\n\
</testsuites>\n";
    assert_eq!(junit_text(&suites, "4.500"), expected);
}

#[test]
fn report_with_times_from_seconds() {
    let results = vec![
        result("api/users/list.reqx", Some(200), vec![], None),
        result("api/orders/list.reqx", Some(200), vec![], None),
        result("api/users/get.reqx", Some(200), vec![], None),
    ];
    let suite_names: Vec<String> = results.iter().map(suite_name).collect();
    let suites: Vec<JunitSuite> = group_suites(&suite_names)
        .iter()
        .map(|group| {
            let members: Vec<&ExecutionResult> = group.members.iter().map(|i| &results[*i]).collect();
            let time: f64 = members.iter().map(|r| r.duration.as_secs_f64()).sum();
            JunitSuite {
                name: group.name.clone(),
                time: format!("{:.3}", time),
                cases: members
                    .iter()
                    .map(|r| JunitCase {
                        result: r,
                        name: case_name(r),
                        time: format!("{:.3}", r.duration.as_secs_f64()),
                    })
                    .collect(),
            }
        })
        .collect();
    let text = junit_text(&suites, &format!("{:.3}", Duration::from_millis(4567).as_secs_f64()));
    assert!(text.contains("<testsuites name=\"reqx\" tests=\"3\" failures=\"0\" errors=\"0\" time=\"4.567\">"));
    assert!(text.contains("<testsuite name=\"users\" tests=\"2\" failures=\"0\" time=\"3.000\">"));
    assert!(text.contains("<testsuite name=\"orders\" tests=\"1\" failures=\"0\" time=\"1.500\">"));
    assert!(text.contains("<testcase name=\"get.reqx\" classname=\"users\" time=\"1.500\">"));
    let users = text.find("testsuite name=\"users\"").unwrap();
    let orders = text.find("testsuite name=\"orders\"").unwrap();
    assert!(users < orders);
}

#[test]
fn found_name_or_fallback() {
    assert_eq!(name_or(Some("users".to_string()), "default"), "users");
    assert_eq!(name_or(Some(String::new()), "default"), "");
    assert_eq!(name_or(None, "default"), "default");
    assert_eq!(name_or(None, "unknown"), "unknown");
}
