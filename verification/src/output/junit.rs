//! The JUnit XML report: suites of test cases, one case for each result.
//!
//! The times of the report are texts that are handed in: they are written
//! from seconds with a fraction, which this library does not hold.

use vstd::prelude::*;
use std::path::PathBuf;
use crate::output::{file_name_of, xml_escaped, escape_xml};
use crate::runtime::assertions::{outcomes_view, AssertionResult, OutcomeModel};
use crate::runtime::execution::{ExecutionResult, ResultModel};
use crate::text::{append_chars, decimal_chars, decimal_text, push_text, string_of};

verus! {
/// The name of the directory that holds a file, as text, by `parent` and
/// `file_name` of `std::path::PathBuf`: none where the path has no parent
/// with a name that is valid Unicode. What counts as a component depends on
/// the platform.
#[verifier::external_body]
fn parent_name_of(path: &PathBuf) -> (r: Option<String>)
{
    path.parent().and_then(|p| p.file_name()).and_then(|n| n.to_str()).map(|n| n.to_owned())
}

/// The suite of a result: the name of the directory that holds its file,
/// or `default` where there is none.
pub fn suite_name(result: &ExecutionResult) -> (r: String)
{
    name_or(parent_name_of(&result.file), "default")
}

/// The name of a test case: the name of the file of a result, or
/// `unknown` where there is none.
pub fn case_name(result: &ExecutionResult) -> (r: String)
{
    name_or(file_name_of(&result.file), "unknown")
}

/// The name that was found, or the fallback where none was.
pub open spec fn found_or(found: Option<String>, fallback: Seq<char>) -> Seq<char> {
    match found {
        Some(name) => name@,
        None => fallback,
    }
}

/// The name that was found, or `fallback` where none was.
pub fn name_or(found: Option<String>, fallback: &str) -> (r: String)
    ensures
        r@ == found_or(found, fallback@),
{
    match found {
        Some(name) => name,
        None => fallback.to_owned(),
    }
}

/// The positions of the results of one suite.
#[derive(Debug, PartialEq)]
pub struct SuiteGroup {
    pub name: String,
    pub members: Vec<usize>,
}

/// What a `SuiteGroup` holds.
pub ghost struct GroupModel {
    pub name: Seq<char>,
    pub members: Seq<usize>,
}

impl View for SuiteGroup {
    type V = GroupModel;

    open spec fn view(&self) -> GroupModel {
        GroupModel { name: self.name@, members: self.members@ }
    }
}

/// The views of a list of groups.
pub open spec fn groups_view(groups: Seq<SuiteGroup>) -> Seq<GroupModel> {
    Seq::new(groups.len(), |i: int| groups[i]@)
}

/// The position of the first group of a name.
pub open spec fn group_named(groups: Seq<GroupModel>, name: Seq<char>) -> Option<int>
    decreases groups.len(),
{
    if groups.len() == 0 {
        None
    } else {
        match group_named(groups.drop_last(), name) {
            Some(i) => Some(i),
            None => if groups.last().name == name {
                Some(groups.len() - 1)
            } else {
                None
            },
        }
    }
}

/// The first group of a name is a group of that name.
pub proof fn lemma_group_named(groups: Seq<GroupModel>, name: Seq<char>)
    ensures
        group_named(groups, name) matches Some(i) ==> 0 <= i < groups.len() && groups[i].name
            == name,
    decreases groups.len(),
{
    if groups.len() > 0 {
        lemma_group_named(groups.drop_last(), name);
    }
}

/// The groups with a position added to the group of a name: to the first
/// group of that name, or to a new group at the end where there is none.
pub open spec fn with_member(groups: Seq<GroupModel>, name: Seq<char>, position: usize) -> Seq<
    GroupModel,
> {
    match group_named(groups, name) {
        Some(i) => groups.update(
            i,
            GroupModel { name: groups[i].name, members: groups[i].members.push(position) },
        ),
        None => groups.push(GroupModel { name, members: seq![position] }),
    }
}

/// The groups of the first `count` names: each position stands in the
/// group of its name, the groups in the order in which their names first
/// occur, the positions of a group in rising order.
pub open spec fn grouped(names: Seq<Seq<char>>, count: int) -> Seq<GroupModel>
    decreases count,
{
    if count <= 0 {
        Seq::empty()
    } else {
        with_member(grouped(names, count - 1), names[count - 1], (count - 1) as usize)
    }
}

/// Every position in the groups of the first `count` names is below
/// `count`.
pub proof fn lemma_grouped_positions(names: Seq<Seq<char>>, count: int)
    requires
        0 <= count <= usize::MAX,
    ensures
        forall|g: int, m: int|
            0 <= g < grouped(names, count).len() && 0 <= m < grouped(
                names,
                count,
            )[g].members.len() ==> (#[trigger] grouped(names, count)[g].members[m]) < count,
    decreases count,
{
    if count > 0 {
        lemma_grouped_positions(names, count - 1);
        let before = grouped(names, count - 1);
        lemma_group_named(before, names[count - 1]);
    }
}

/// The position of the first group of `name`.
fn find_group(groups: &Vec<SuiteGroup>, name: &String) -> (r: Option<usize>)
    ensures
        match r {
            Some(i) => group_named(groups_view(groups@), name@) == Some(i as int) && i
                < groups@.len(),
            None => group_named(groups_view(groups@), name@) is None,
        },
{
    let ghost all = groups_view(groups@);
    let mut i: usize = 0;
    while i < groups.len()
        invariant
            i <= groups.len(),
            all == groups_view(groups@),
            group_named(all.take(i as int), name@) is None,
        decreases groups.len() - i,
    {
        assert(all.take(i + 1).drop_last() == all.take(i as int));
        if groups[i].name == *name {
            proof {
                lemma_group_prefix(all, i + 1, name@);
            }
            return Some(i);
        }
        i += 1;
    }
    assert(all.take(all.len() as int) == all);
    None
}

/// The first group of a name in a prefix is the first in the whole list.
proof fn lemma_group_prefix(groups: Seq<GroupModel>, len: int, name: Seq<char>)
    requires
        0 <= len <= groups.len(),
        group_named(groups.take(len), name) is Some,
    ensures
        group_named(groups, name) == group_named(groups.take(len), name),
    decreases groups.len() - len,
{
    if len < groups.len() {
        assert(groups.take(len + 1).drop_last() == groups.take(len));
        lemma_group_prefix(groups, len + 1, name);
    } else {
        assert(groups.take(len) == groups);
    }
}

/// The views of a list of names.
pub open spec fn names_view(names: Seq<String>) -> Seq<Seq<char>> {
    Seq::new(names.len(), |i: int| names[i]@)
}

/// The positions of a list of suite names, grouped by name.
pub fn group_suites(names: &Vec<String>) -> (r: Vec<SuiteGroup>)
    ensures
        groups_view(r@) == grouped(names_view(names@), names@.len() as int),
        forall|g: int, m: int|
            0 <= g < r@.len() && 0 <= m < r@[g].members@.len() ==> (#[trigger] r@[g].members@[m])
                < names@.len(),
{
    let ghost all = names_view(names@);
    let mut groups: Vec<SuiteGroup> = Vec::new();
    let mut i: usize = 0;
    while i < names.len()
        invariant
            i <= names.len(),
            all == names_view(names@),
            groups_view(groups@) == grouped(all, i as int),
        decreases names.len() - i,
    {
        match find_group(&groups, &names[i]) {
            Some(g) => {
                let held = groups.remove(g);
                let mut members = held.members;
                members.push(i);
                groups.insert(g, SuiteGroup { name: held.name, members });
            },
            None => {
                let mut members: Vec<usize> = Vec::new();
                members.push(i);
                groups.push(SuiteGroup { name: names[i].clone(), members });
            },
        }
        i += 1;
    }
    proof {
        lemma_grouped_positions(all, names@.len() as int);
        assert forall|g: int, m: int|
            0 <= g < groups@.len() && 0 <= m < groups@[g].members@.len() implies (
            #[trigger] groups@[g].members@[m]) < names@.len() by {
            assert(groups_view(groups@)[g].members[m] == groups@[g].members@[m]);
        }
    }
    groups
}

/// A test case: a result with its name and its time as text.
pub struct JunitCase<'a> {
    pub result: &'a ExecutionResult,
    pub name: String,
    pub time: String,
}

/// What a `JunitCase` holds.
pub ghost struct CaseModel {
    pub result: ResultModel,
    pub name: Seq<char>,
    pub time: Seq<char>,
}

impl<'a> View for JunitCase<'a> {
    type V = CaseModel;

    open spec fn view(&self) -> CaseModel {
        CaseModel { result: self.result@, name: self.name@, time: self.time@ }
    }
}

/// The views of a list of cases.
pub open spec fn cases_view(cases: Seq<JunitCase>) -> Seq<CaseModel> {
    Seq::new(cases.len(), |i: int| cases[i]@)
}

/// A test suite: its name, its time as text, and its cases.
pub struct JunitSuite<'a> {
    pub name: String,
    pub time: String,
    pub cases: Vec<JunitCase<'a>>,
}

/// What a `JunitSuite` holds.
pub ghost struct SuiteModel {
    pub name: Seq<char>,
    pub time: Seq<char>,
    pub cases: Seq<CaseModel>,
}

impl<'a> View for JunitSuite<'a> {
    type V = SuiteModel;

    open spec fn view(&self) -> SuiteModel {
        SuiteModel { name: self.name@, time: self.time@, cases: cases_view(self.cases@) }
    }
}

/// The views of a list of suites.
pub open spec fn suites_view(suites: Seq<JunitSuite>) -> Seq<SuiteModel> {
    Seq::new(suites.len(), |i: int| suites[i]@)
}

/// The messages of the failed ones among the first `count` assertions,
/// with `; ` between them.
pub open spec fn failure_summary(outcomes: Seq<OutcomeModel>, count: int) -> Seq<char>
    decreases count,
{
    if count <= 0 {
        Seq::empty()
    } else if outcomes[count - 1].passed {
        failure_summary(outcomes, count - 1)
    } else if failure_count(outcomes, count - 1) == 0 {
        outcomes[count - 1].message
    } else {
        failure_summary(outcomes, count - 1) + "; "@ + outcomes[count - 1].message
    }
}

/// The number of failed ones among the first `count` assertions.
pub open spec fn failure_count(outcomes: Seq<OutcomeModel>, count: int) -> nat
    decreases count,
{
    if count <= 0 {
        0
    } else {
        failure_count(outcomes, count - 1) + (if outcomes[count - 1].passed {
            0nat
        } else {
            1nat
        })
    }
}

/// The messages of the failed assertions, with `; ` between them.
fn summarize_failures(assertions: &Vec<AssertionResult>) -> (r: Vec<char>)
    ensures
        r@ == failure_summary(outcomes_view(assertions@), assertions@.len() as int),
{
    let ghost outcomes = outcomes_view(assertions@);
    let mut out: Vec<char> = Vec::new();
    let mut any = false;
    let mut i: usize = 0;
    while i < assertions.len()
        invariant
            i <= assertions.len(),
            outcomes == outcomes_view(assertions@),
            out@ == failure_summary(outcomes, i as int),
            any == (failure_count(outcomes, i as int) > 0),
            !any ==> out@.len() == 0,
        decreases assertions.len() - i,
    {
        if !assertions[i].passed {
            if any {
                push_text(&mut out, "; ");
            }
            push_text(&mut out, assertions[i].message.as_str());
            any = true;
        }
        i += 1;
    }
    out
}

/// The element of one test case: its name, its suite and its time; the
/// method, the URL and the status as properties; and, for a failure, the
/// messages of the failed assertions and the error.
pub open spec fn case_element(suite: Seq<char>, case: CaseModel) -> Seq<char> {
    "    <testcase name=\""@ + xml_escaped(case.name) + "\" classname=\""@ + xml_escaped(suite)
        + "\" time=\""@ + case.time + "\">\n"@
        + "      <properties>\n        <property name=\"method\" value=\""@ + xml_escaped(
        case.result.method,
    ) + "\"/>\n        <property name=\"url\" value=\""@ + xml_escaped(case.result.url)
        + "\"/>\n"@ + (match case.result.status {
        Some(code) => "        <property name=\"status\" value=\""@ + decimal_text(code as nat)
            + "\"/>\n"@,
        None => Seq::empty(),
    }) + "      </properties>\n"@ + (if case.result.failed {
        "      <failure message=\""@ + xml_escaped(
            failure_summary(case.result.outcomes, case.result.outcomes.len() as int),
        ) + "\" type=\"AssertionError\">\n"@ + xml_escaped(
            match case.result.error {
                Some(error) => error,
                None => Seq::empty(),
            },
        ) + "\n      </failure>\n"@
    } else {
        Seq::empty()
    }) + "    </testcase>\n"@
}

/// The elements of the first `count` cases of a suite.
pub open spec fn case_elements(suite: Seq<char>, cases: Seq<CaseModel>, count: int) -> Seq<char>
    decreases count,
{
    if count <= 0 {
        Seq::empty()
    } else {
        case_elements(suite, cases, count - 1) + case_element(suite, cases[count - 1])
    }
}

/// The number of failures among the first `count` cases.
pub open spec fn failed_cases(cases: Seq<CaseModel>, count: int) -> nat
    decreases count,
{
    if count <= 0 {
        0
    } else {
        failed_cases(cases, count - 1) + (if cases[count - 1].result.failed {
            1nat
        } else {
            0nat
        })
    }
}

/// The element of one suite: its name, the numbers of its cases and of
/// its failures, its time, and its cases.
pub open spec fn suite_element(suite: SuiteModel) -> Seq<char> {
    "  <testsuite name=\""@ + xml_escaped(suite.name) + "\" tests=\""@ + decimal_text(
        suite.cases.len(),
    ) + "\" failures=\""@ + decimal_text(failed_cases(suite.cases, suite.cases.len() as int))
        + "\" time=\""@ + suite.time + "\">\n"@ + case_elements(
        suite.name,
        suite.cases,
        suite.cases.len() as int,
    ) + "  </testsuite>\n"@
}

/// The elements of the first `count` suites.
pub open spec fn suite_elements(suites: Seq<SuiteModel>, count: int) -> Seq<char>
    decreases count,
{
    if count <= 0 {
        Seq::empty()
    } else {
        suite_elements(suites, count - 1) + suite_element(suites[count - 1])
    }
}

/// The number of cases in the first `count` suites.
pub open spec fn cases_in(suites: Seq<SuiteModel>, count: int) -> nat
    decreases count,
{
    if count <= 0 {
        0
    } else {
        cases_in(suites, count - 1) + suites[count - 1].cases.len()
    }
}

/// The number of failures in the first `count` suites.
pub open spec fn failures_in(suites: Seq<SuiteModel>, count: int) -> nat
    decreases count,
{
    if count <= 0 {
        0
    } else {
        failures_in(suites, count - 1) + failed_cases(
            suites[count - 1].cases,
            suites[count - 1].cases.len() as int,
        )
    }
}

/// The report: the numbers of all cases and of all failures, the time of
/// the run, and the suites.
pub open spec fn junit_report(suites: Seq<SuiteModel>, time: Seq<char>) -> Seq<char> {
    "<?xml version=\"1.0\" encoding=\"UTF-8\"?>\n"@ + "<testsuites name=\"reqx\" tests=\""@
        + decimal_text(cases_in(suites, suites.len() as int)) + "\" failures=\""@ + decimal_text(
        failures_in(suites, suites.len() as int),
    ) + "\" errors=\"0\" time=\""@ + time + "\">\n"@ + suite_elements(
        suites,
        suites.len() as int,
    ) + "</testsuites>\n"@
}

/// Appends `text`, escaped for XML.
fn push_escaped(out: &mut Vec<char>, text: &str)
    ensures
        final(out)@ == old(out)@ + xml_escaped(text@),
{
    let escaped = escape_xml(text);
    push_text(out, escaped.as_str());
}

/// The element of one test case.
fn write_case(suite: &str, case: &JunitCase) -> (r: Vec<char>)
    ensures
        r@ == case_element(suite@, case@),
{
    let result = case.result;
    let mut out: Vec<char> = Vec::new();
    push_text(&mut out, "    <testcase name=\"");
    push_escaped(&mut out, case.name.as_str());
    push_text(&mut out, "\" classname=\"");
    push_escaped(&mut out, suite);
    push_text(&mut out, "\" time=\"");
    push_text(&mut out, case.time.as_str());
    push_text(&mut out, "\">\n");
    push_text(&mut out, "      <properties>\n        <property name=\"method\" value=\"");
    push_escaped(&mut out, result.method.as_str());
    push_text(&mut out, "\"/>\n        <property name=\"url\" value=\"");
    push_escaped(&mut out, result.url.as_str());
    push_text(&mut out, "\"/>\n");
    match result.status {
        Some(code) => {
            push_text(&mut out, "        <property name=\"status\" value=\"");
            append_chars(&mut out, &decimal_chars(code as u64));
            push_text(&mut out, "\"/>\n");
        },
        None => {},
    }
    push_text(&mut out, "      </properties>\n");
    if result.failed {
        let summary = string_of(&summarize_failures(&result.assertions));
        push_text(&mut out, "      <failure message=\"");
        push_escaped(&mut out, summary.as_str());
        push_text(&mut out, "\" type=\"AssertionError\">\n");
        match &result.error {
            Some(error) => {
                push_escaped(&mut out, error.as_str());
            },
            None => {
                push_escaped(&mut out, "");
                proof {
                    reveal_strlit("");
                }
            },
        }
        push_text(&mut out, "\n      </failure>\n");
    }
    push_text(&mut out, "    </testcase>\n");
    out
}

/// The element of one suite.
fn write_suite(suite: &JunitSuite) -> (r: Vec<char>)
    ensures
        r@ == suite_element(suite@),
        suite.cases@.len() == suite@.cases.len(),
{
    let ghost cases = cases_view(suite.cases@);
    let mut failed: usize = 0;
    let mut body: Vec<char> = Vec::new();
    let mut i: usize = 0;
    while i < suite.cases.len()
        invariant
            i <= suite.cases.len(),
            cases == cases_view(suite.cases@),
            failed == failed_cases(cases, i as int),
            failed <= i,
            body@ == case_elements(suite.name@, cases, i as int),
        decreases suite.cases.len() - i,
    {
        if suite.cases[i].result.failed {
            failed += 1;
        }
        let element = write_case(suite.name.as_str(), &suite.cases[i]);
        append_chars(&mut body, &element);
        i += 1;
    }
    let mut out: Vec<char> = Vec::new();
    push_text(&mut out, "  <testsuite name=\"");
    push_escaped(&mut out, suite.name.as_str());
    push_text(&mut out, "\" tests=\"");
    append_chars(&mut out, &decimal_chars(suite.cases.len() as u64));
    push_text(&mut out, "\" failures=\"");
    append_chars(&mut out, &decimal_chars(failed as u64));
    push_text(&mut out, "\" time=\"");
    push_text(&mut out, suite.time.as_str());
    push_text(&mut out, "\">\n");
    append_chars(&mut out, &body);
    push_text(&mut out, "  </testsuite>\n");
    out
}

/// The number of failures among the cases.
fn count_failed(cases: &Vec<JunitCase>) -> (r: usize)
    ensures
        r == failed_cases(cases_view(cases@), cases@.len() as int),
        r <= cases@.len(),
{
    let ghost all = cases_view(cases@);
    let mut failed: usize = 0;
    let mut i: usize = 0;
    while i < cases.len()
        invariant
            i <= cases.len(),
            all == cases_view(cases@),
            failed == failed_cases(all, i as int),
            failed <= i,
        decreases cases.len() - i,
    {
        if cases[i].result.failed {
            failed += 1;
        }
        i += 1;
    }
    failed
}

/// The JUnit XML report on suites of cases, for a run whose time is
/// written as `time`.
pub fn junit_text(suites: &Vec<JunitSuite>, time: &str) -> (r: String)
    ensures
        r@ == junit_report(suites_view(suites@), time@),
{
    let ghost all = suites_view(suites@);
    let mut tests: u128 = 0;
    let mut failures: u128 = 0;
    let mut body: Vec<char> = Vec::new();
    let mut i: usize = 0;
    while i < suites.len()
        invariant
            i <= suites.len(),
            all == suites_view(suites@),
            tests == cases_in(all, i as int),
            failures == failures_in(all, i as int),
            failures <= tests <= i * usize::MAX,
            body@ == suite_elements(all, i as int),
        decreases suites.len() - i,
    {
        let failed = count_failed(&suites[i].cases);
        assert(i * usize::MAX + usize::MAX == (i + 1) * usize::MAX) by (nonlinear_arith);
        assert((i + 1) * usize::MAX <= usize::MAX * usize::MAX) by (nonlinear_arith)
            requires
                i + 1 <= usize::MAX,
        ;
        assert(usize::MAX * usize::MAX < u128::MAX) by (nonlinear_arith)
            requires
                usize::MAX <= 0xffff_ffff_ffff_ffff,
        ;
        tests = tests + suites[i].cases.len() as u128;
        failures = failures + failed as u128;
        let element = write_suite(&suites[i]);
        append_chars(&mut body, &element);
        i += 1;
    }
    let mut out: Vec<char> = Vec::new();
    push_text(&mut out, "<?xml version=\"1.0\" encoding=\"UTF-8\"?>\n");
    push_text(&mut out, "<testsuites name=\"reqx\" tests=\"");
    append_chars(&mut out, &crate::text::wide_decimal_chars(tests));
    push_text(&mut out, "\" failures=\"");
    append_chars(&mut out, &crate::text::wide_decimal_chars(failures));
    push_text(&mut out, "\" errors=\"0\" time=\"");
    push_text(&mut out, time);
    push_text(&mut out, "\">\n");
    append_chars(&mut out, &body);
    push_text(&mut out, "</testsuites>\n");
    string_of(&out)
}

} // verus!
