//! Reports on the results of a run: the table and the Test Anything
//! Protocol, and what the XML report needs escaped.

pub mod junit;

use vstd::prelude::*;
use std::path::PathBuf;
use std::time::Duration;
use crate::json::{
    items_view, json_pretty_text, push_item, push_member, serde_form, JsonModel, JsonValue,
};
use crate::runtime::assertions::{AssertionResult, OutcomeModel, outcomes_view};
use crate::runtime::execution::{
    failures_among, lemma_failures_among, summarize, ExecutionResult, ResultModel,
};
use crate::text::{chars_of, decimal_chars, decimal_text, append_chars, push_text, string_of};

verus! {
/// Something that writes a report on the results of a run.
pub trait OutputFormatter {
    fn format(&self, results: &[ExecutionResult], total_duration: Duration) -> String;
}

/// The text that the `Debug` of `std::time::Duration` writes for a
/// duration.
pub uninterp spec fn duration_debug_text(duration: Duration) -> Seq<char>;

/// The `Debug` text of a `std::time::Duration`.
#[verifier::external_body]
fn elapsed_text(duration: &Duration) -> (r: String)
    ensures
        r@ == duration_debug_text(*duration),
{
    format!("{:?}", duration)
}

/// `file_name` of a `std::path::PathBuf`, as text: the last component of
/// the path, where it has one that is valid Unicode. What counts as a
/// component depends on the platform.
#[verifier::external_body]
pub(crate) fn file_name_of(path: &PathBuf) -> (r: Option<String>)
{
    path.file_name().and_then(|name| name.to_str()).map(|name| name.to_owned())
}

/// `colored::Colorize::red`, written by the `Display` of
/// `colored::ColoredString`: the text, between escape sequences where the
/// terminal and the environment ask for colour.
#[verifier::external_body]
fn paint_red(text: &str) -> (r: String)
{
    colored::Colorize::red(text).to_string()
}

/// `colored::Colorize::green`, written by the `Display` of
/// `colored::ColoredString`: the text, between escape sequences where the
/// terminal and the environment ask for colour.
#[verifier::external_body]
fn paint_green(text: &str) -> (r: String)
{
    colored::Colorize::green(text).to_string()
}

/// A result with what a report shows of its file and its duration.
pub struct Reported<'a> {
    pub result: &'a ExecutionResult,
    /// The name of the file.
    pub name: String,
    /// The duration, as text.
    pub elapsed: String,
}

/// What a `Reported` holds.
pub ghost struct ReportedModel {
    pub result: ResultModel,
    pub name: Seq<char>,
    pub elapsed: Seq<char>,
}

impl<'a> View for Reported<'a> {
    type V = ReportedModel;

    open spec fn view(&self) -> ReportedModel {
        ReportedModel { result: self.result@, name: self.name@, elapsed: self.elapsed@ }
    }
}

/// The views of a list of reported results.
pub open spec fn reported_view(entries: Seq<Reported>) -> Seq<ReportedModel> {
    Seq::new(entries.len(), |i: int| entries[i]@)
}

/// The results with their names and durations: the name of a file that has
/// none is `unknown`.
pub open spec fn is_labelling(results: Seq<ExecutionResult>, entries: Seq<Reported>) -> bool {
    &&& entries.len() == results.len()
    &&& forall|i: int|
        0 <= i < results.len() ==> {
            &&& *(#[trigger] entries[i]).result == results[i]
            &&& entries[i].elapsed@ == duration_debug_text(results[i].duration)
        }
}

/// The results with their names and durations.
pub fn label_results<'a>(results: &'a [ExecutionResult]) -> (r: Vec<Reported<'a>>)
    ensures
        is_labelling(results@, r@),
{
    let mut entries: Vec<Reported<'a>> = Vec::new();
    let mut i: usize = 0;
    while i < results.len()
        invariant
            i <= results.len(),
            entries@.len() == i,
            forall|j: int|
                0 <= j < i ==> {
                    &&& *(#[trigger] entries@[j]).result == results@[j]
                    &&& entries@[j].elapsed@ == duration_debug_text(results@[j].duration)
                },
        decreases results.len() - i,
    {
        let name = match file_name_of(&results[i].file) {
            Some(name) => name,
            None => "unknown".to_owned(),
        };
        let elapsed = elapsed_text(&results[i].duration);
        entries.push(Reported { result: &results[i], name, elapsed });
        i += 1;
    }
    entries
}

/// The lines for the failed ones among the first `count` assertions: for
/// each, its message between `before` and `after`.
pub open spec fn failure_lines(
    outcomes: Seq<OutcomeModel>,
    count: int,
    before: Seq<char>,
    after: Seq<char>,
) -> Seq<char>
    decreases count,
{
    if count <= 0 {
        Seq::empty()
    } else {
        failure_lines(outcomes, count - 1, before, after) + (if !outcomes[count - 1].passed {
            before + outcomes[count - 1].message + after
        } else {
            Seq::empty()
        })
    }
}

/// Appends the lines for the failed assertions.
pub(crate) fn push_failure_lines(out: &mut Vec<char>, assertions: &Vec<AssertionResult>, before: &str, after: &str)
    ensures
        final(out)@ == old(out)@ + failure_lines(
            outcomes_view(assertions@),
            assertions@.len() as int,
            before@,
            after@,
        ),
{
    let ghost outcomes = outcomes_view(assertions@);
    let mut i: usize = 0;
    while i < assertions.len()
        invariant
            i <= assertions.len(),
            outcomes == outcomes_view(assertions@),
            out@ == old(out)@ + failure_lines(outcomes, i as int, before@, after@),
        decreases assertions.len() - i,
    {
        let ghost done = out@;
        let ghost lines = failure_lines(outcomes, i as int, before@, after@);
        if !assertions[i].passed {
            push_text(out, before);
            push_text(out, assertions[i].message.as_str());
            push_text(out, after);
        }
        i += 1;
    }
}

/// The line for an error, if there is one: the error between `before` and
/// `after`.
pub open spec fn error_line(error: Option<Seq<char>>, before: Seq<char>, after: Seq<char>) -> Seq<
    char,
> {
    match error {
        Some(text) => before + text + after,
        None => Seq::empty(),
    }
}

/// Appends the line for an error.
fn push_error_line(out: &mut Vec<char>, error: &Option<String>, before: &str, after: &str)
    ensures
        final(out)@ == old(out)@ + error_line(
            crate::runtime::execution::text_view(*error),
            before@,
            after@,
        ),
{
    match error {
        Some(text) => {
            push_text(out, before);
            push_text(out, text.as_str());
            push_text(out, after);
        },
        None => {},
    }
}

/// The entry of one result in a TAP report: its number, counted from one,
/// its name and its duration; for a failure, the messages of the failed
/// assertions and the error.
pub open spec fn tap_entry(number: nat, entry: ReportedModel) -> Seq<char> {
    let head = decimal_text(number) + " - "@ + entry.name + " ("@ + entry.elapsed + ")\n"@;
    if entry.result.failed {
        "not ok "@ + head + "  ---\n"@ + failure_lines(
            entry.result.outcomes,
            entry.result.outcomes.len() as int,
            "  message: \""@,
            "\"\n"@,
        ) + error_line(entry.result.error, "  error: \""@, "\"\n"@) + "  ...\n"@
    } else {
        "ok "@ + head
    }
}

/// The entries of the first `count` results in a TAP report.
pub open spec fn tap_entries(entries: Seq<ReportedModel>, count: int) -> Seq<char>
    decreases count,
{
    if count <= 0 {
        Seq::empty()
    } else {
        tap_entries(entries, count - 1) + tap_entry(count as nat, entries[count - 1])
    }
}

/// A TAP report: the version, the plan, and one entry for each result.
pub open spec fn tap_report(entries: Seq<ReportedModel>) -> Seq<char> {
    "TAP version 14\n"@ + "1.."@ + decimal_text(entries.len()) + "\n"@ + tap_entries(
        entries,
        entries.len() as int,
    )
}

/// A TAP report on results with their names and durations.
pub fn tap_text(entries: &Vec<Reported>) -> (r: String)
    ensures
        r@ == tap_report(reported_view(entries@)),
{
    let ghost all = reported_view(entries@);
    let mut out: Vec<char> = Vec::new();
    push_text(&mut out, "TAP version 14\n");
    push_text(&mut out, "1..");
    append_chars(&mut out, &decimal_chars(entries.len() as u64));
    push_text(&mut out, "\n");
    let ghost head = out@;
    let mut i: usize = 0;
    while i < entries.len()
        invariant
            i <= entries.len(),
            all == reported_view(entries@),
            out@ == head + tap_entries(all, i as int),
        decreases entries.len() - i,
    {
        let entry = &entries[i];
        let ghost model = all[i as int];
        assert(model == entry@);
        let mut line: Vec<char> = Vec::new();
        if entry.result.failed {
            push_text(&mut line, "not ok ");
        } else {
            push_text(&mut line, "ok ");
        }
        append_chars(&mut line, &decimal_chars((i + 1) as u64));
        push_text(&mut line, " - ");
        push_text(&mut line, entry.name.as_str());
        push_text(&mut line, " (");
        push_text(&mut line, entry.elapsed.as_str());
        push_text(&mut line, ")\n");
        if entry.result.failed {
            push_text(&mut line, "  ---\n");
            push_failure_lines(&mut line, &entry.result.assertions, "  message: \"", "\"\n");
            push_error_line(&mut line, &entry.result.error, "  error: \"", "\"\n");
            push_text(&mut line, "  ...\n");
        }
        assert(line@ == tap_entry((i + 1) as nat, model));
        append_chars(&mut out, &line);
        i += 1;
    }
    string_of(&out)
}

/// TAP (Test Anything Protocol) formatter.
#[derive(Debug, Clone, Copy, PartialEq, Eq, Structural)]
pub struct TapFormatter;

impl TapFormatter {
    /// The formatter.
    pub fn new() -> (r: Self)
        ensures
            r == TapFormatter,
    {
        TapFormatter
    }
}

impl OutputFormatter for TapFormatter {
    /// A TAP report on the results: each with the name of its file and
    /// its duration as the outside gives them.
    fn format(&self, results: &[ExecutionResult], total_duration: Duration) -> (r: String)
        ensures
            exists|entries: Seq<Reported>|
                is_labelling(results@, entries) && r@ == #[trigger] tap_report(
                    reported_view(entries),
                ),
    {
        let entries = label_results(results);
        tap_text(&entries)
    }
}

/// The mark of a result in the table: a cross for a failure, a check mark
/// for any other.
pub open spec fn icon_of(failed: bool) -> Seq<char> {
    if failed {
        "✗"@
    } else {
        "✓"@
    }
}

/// The status of a result in the table: the code in decimal, or `ERR`
/// where there was no response.
pub open spec fn status_text(status: Option<u16>) -> Seq<char> {
    match status {
        Some(code) => decimal_text(code as nat),
        None => "ERR"@,
    }
}

/// A result with what the table shows of it: its mark and its status,
/// which may be painted, and its duration.
pub struct TableRow<'a> {
    pub result: &'a ExecutionResult,
    /// The mark, as it is shown.
    pub icon: String,
    /// The status, as it is shown.
    pub status: String,
    /// The duration, as text.
    pub elapsed: String,
}

/// What a `TableRow` holds.
pub ghost struct RowModel {
    pub result: ResultModel,
    pub icon: Seq<char>,
    pub status: Seq<char>,
    pub elapsed: Seq<char>,
}

impl<'a> View for TableRow<'a> {
    type V = RowModel;

    open spec fn view(&self) -> RowModel {
        RowModel {
            result: self.result@,
            icon: self.icon@,
            status: self.status@,
            elapsed: self.elapsed@,
        }
    }
}

/// The views of a list of rows.
pub open spec fn rows_view(rows: Seq<TableRow>) -> Seq<RowModel> {
    Seq::new(rows.len(), |i: int| rows[i]@)
}

/// The lines of one result in the table: its mark, method, URL, status and
/// duration; under a failure, the messages of the failed assertions and the
/// error.
pub open spec fn table_row(row: RowModel) -> Seq<char> {
    let line = row.icon + " "@ + row.result.method + " "@ + row.result.url + " "@ + row.status
        + " ("@ + row.elapsed + ")\n"@;
    if row.result.failed {
        line + failure_lines(
            row.result.outcomes,
            row.result.outcomes.len() as int,
            "  └─ "@,
            "\n"@,
        ) + error_line(row.result.error, "  └─ Error: "@, "\n"@)
    } else {
        line
    }
}

/// The lines of the first `count` results in the table.
pub open spec fn table_rows(rows: Seq<RowModel>, count: int) -> Seq<char>
    decreases count,
{
    if count <= 0 {
        Seq::empty()
    } else {
        table_rows(rows, count - 1) + table_row(rows[count - 1])
    }
}

/// The rule above and below the rows: sixty dashes.
pub open spec fn table_rule() -> Seq<char> {
    Seq::new(60, |i: int| '─')
}

/// The table: the rows between two rules, and the summary under them.
pub open spec fn table_report(rows: Seq<RowModel>, summary: Seq<char>) -> Seq<char> {
    "\n"@ + table_rule() + "\n\n"@ + table_rows(rows, rows.len() as int) + "\n"@ + table_rule()
        + "\n"@ + summary + "\n"@
}

/// The summary of a run: how many results there are, how many have passed
/// and failed, and how long the run took.
pub open spec fn summary_text(total: nat, passed: nat, failed: nat, elapsed: Seq<char>) -> Seq<
    char,
> {
    "Total: "@ + decimal_text(total) + " | Passed: "@ + decimal_text(passed) + " | Failed: "@
        + decimal_text(failed) + " | Duration: "@ + elapsed
}

/// Appends the rule.
fn push_rule(out: &mut Vec<char>)
    ensures
        final(out)@ == old(out)@ + table_rule(),
{
    let mut i: usize = 0;
    while i < 60
        invariant
            i <= 60,
            out@ == old(out)@ + Seq::new(i as nat, |k: int| '─'),
        decreases 60 - i,
    {
        out.push('─');
        i += 1;
    }
}

/// The table of rows and a summary.
pub fn table_text(rows: &Vec<TableRow>, summary: &str) -> (r: String)
    ensures
        r@ == table_report(rows_view(rows@), summary@),
{
    let ghost all = rows_view(rows@);
    let mut out: Vec<char> = Vec::new();
    push_text(&mut out, "\n");
    push_rule(&mut out);
    push_text(&mut out, "\n\n");
    let ghost head = out@;
    let mut i: usize = 0;
    while i < rows.len()
        invariant
            i <= rows.len(),
            all == rows_view(rows@),
            out@ == head + table_rows(all, i as int),
        decreases rows.len() - i,
    {
        let row = &rows[i];
        let mut line: Vec<char> = Vec::new();
        push_text(&mut line, row.icon.as_str());
        push_text(&mut line, " ");
        push_text(&mut line, row.result.method.as_str());
        push_text(&mut line, " ");
        push_text(&mut line, row.result.url.as_str());
        push_text(&mut line, " ");
        push_text(&mut line, row.status.as_str());
        push_text(&mut line, " (");
        push_text(&mut line, row.elapsed.as_str());
        push_text(&mut line, ")\n");
        if row.result.failed {
            push_failure_lines(&mut line, &row.result.assertions, "  └─ ", "\n");
            push_error_line(&mut line, &row.result.error, "  └─ Error: ", "\n");
        }
        append_chars(&mut out, &line);
        i += 1;
    }
    push_text(&mut out, "\n");
    push_rule(&mut out);
    push_text(&mut out, "\n");
    push_text(&mut out, summary);
    push_text(&mut out, "\n");
    string_of(&out)
}

/// Table formatter (default, colorized).
#[derive(Debug, Clone, Copy, PartialEq, Eq, Structural)]
pub struct TableFormatter {
    colorized: bool,
}

/// The rows of the results: each with its duration as the outside writes
/// it, and, where nothing is painted, with its mark and status as they are.
pub open spec fn is_table(results: Seq<ExecutionResult>, colorized: bool, rows: Seq<TableRow>) -> bool {
    &&& rows.len() == results.len()
    &&& forall|i: int|
        0 <= i < results.len() ==> {
            &&& *(#[trigger] rows[i]).result == results[i]
            &&& rows[i].elapsed@ == duration_debug_text(results[i].duration)
            &&& !colorized ==> rows[i].icon@ == icon_of(results[i].failed)
            &&& !colorized ==> rows[i].status@ == status_text(results[i].status)
        }
}

/// The summary of the results, as it is shown: where nothing is painted,
/// the summary as it is.
pub open spec fn is_summary(
    results: Seq<ExecutionResult>,
    total_duration: Duration,
    colorized: bool,
    shown: Seq<char>,
) -> bool {
    let failed = failures_among(results, results.len() as int);
    !colorized ==> shown == summary_text(
        results.len(),
        (results.len() - failed) as nat,
        failed,
        duration_debug_text(total_duration),
    )
}

impl TableFormatter {
    /// The formatter, which paints marks, statuses and the summary where
    /// `colorized` is set.
    pub fn new(colorized: bool) -> (r: Self)
        ensures
            r.is_colorized() == colorized,
    {
        TableFormatter { colorized }
    }

    /// Whether marks, statuses and the summary are painted.
    pub closed spec fn is_colorized(&self) -> bool {
        self.colorized
    }

    /// `text` as it is shown: painted red for a failure and green for any
    /// other where the table is colorized, and as it is where it is not.
    fn shown(&self, text: &str, failed: bool) -> (r: String)
        ensures
            !self.is_colorized() ==> r@ == text@,
    {
        if self.colorized {
            if failed {
                paint_red(text)
            } else {
                paint_green(text)
            }
        } else {
            text.to_owned()
        }
    }

    /// The rows of the results.
    fn rows<'a>(&self, results: &'a [ExecutionResult]) -> (r: Vec<TableRow<'a>>)
        ensures
            is_table(results@, self.is_colorized(), r@),
    {
        let mut rows: Vec<TableRow<'a>> = Vec::new();
        let mut i: usize = 0;
        while i < results.len()
            invariant
                i <= results.len(),
                rows@.len() == i,
                forall|j: int|
                    0 <= j < i ==> {
                        &&& *(#[trigger] rows@[j]).result == results@[j]
                        &&& rows@[j].elapsed@ == duration_debug_text(results@[j].duration)
                        &&& !self.is_colorized() ==> rows@[j].icon@ == icon_of(results@[j].failed)
                        &&& !self.is_colorized() ==> rows@[j].status@ == status_text(
                            results@[j].status,
                        )
                    },
            decreases results.len() - i,
        {
            let result = &results[i];
            let status = match result.status {
                Some(code) => string_of(&decimal_chars(code as u64)),
                None => "ERR".to_owned(),
            };
            let icon = if result.failed {
                "✗"
            } else {
                "✓"
            };
            rows.push(
                TableRow {
                    result,
                    icon: self.shown(icon, result.failed),
                    status: self.shown(status.as_str(), result.failed),
                    elapsed: elapsed_text(&result.duration),
                },
            );
            i += 1;
        }
        rows
    }
}

impl OutputFormatter for TableFormatter {
    /// The table of the results, with the summary of the run under it.
    fn format(&self, results: &[ExecutionResult], total_duration: Duration) -> (r: String)
        ensures
            exists|rows: Seq<TableRow>, summary: Seq<char>|
                is_table(results@, self.is_colorized(), rows) && is_summary(
                    results@,
                    total_duration,
                    self.is_colorized(),
                    summary,
                ) && r@ == #[trigger] table_report(rows_view(rows), summary),
    {
        let rows = self.rows(results);
        let counts = summarize(results);
        let mut line: Vec<char> = Vec::new();
        push_text(&mut line, "Total: ");
        append_chars(&mut line, &decimal_chars(counts.total as u64));
        push_text(&mut line, " | Passed: ");
        append_chars(&mut line, &decimal_chars(counts.passed as u64));
        push_text(&mut line, " | Failed: ");
        append_chars(&mut line, &decimal_chars(counts.failed as u64));
        push_text(&mut line, " | Duration: ");
        push_text(&mut line, elapsed_text(&total_duration).as_str());
        let plain = string_of(&line);
        proof {
            lemma_failures_among(results@, results@.len() as int);
        }
        let summary = self.shown(plain.as_str(), counts.failed > 0);
        let r = table_text(&rows, summary.as_str());
        r
    }
}

/// What stands for a character in XML: an entity for `&`, `<`, `>`, `"` and
/// `'`, the character itself for any other.
pub open spec fn xml_escape_of(c: char) -> Seq<char> {
    if c == '&' {
        "&amp;"@
    } else if c == '<' {
        "&lt;"@
    } else if c == '>' {
        "&gt;"@
    } else if c == '"' {
        "&quot;"@
    } else if c == '\'' {
        "&apos;"@
    } else {
        seq![c]
    }
}

/// A text with each character escaped for XML.
pub open spec fn xml_escaped(s: Seq<char>) -> Seq<char>
    decreases s.len(),
{
    if s.len() == 0 {
        Seq::empty()
    } else {
        xml_escaped(s.drop_last()) + xml_escape_of(s.last())
    }
}

/// `s` escaped for XML.
pub fn escape_xml(s: &str) -> (r: String)
    ensures
        r@ == xml_escaped(s@),
{
    let chars = chars_of(s);
    let mut out: Vec<char> = Vec::new();
    let mut i: usize = 0;
    while i < chars.len()
        invariant
            i <= chars.len(),
            chars@ == s@,
            out@ == xml_escaped(chars@.take(i as int)),
        decreases chars.len() - i,
    {
        let c = chars[i];
        assert(chars@.take(i + 1).drop_last() == chars@.take(i as int));
        if c == '&' {
            push_text(&mut out, "&amp;");
        } else if c == '<' {
            push_text(&mut out, "&lt;");
        } else if c == '>' {
            push_text(&mut out, "&gt;");
        } else if c == '"' {
            push_text(&mut out, "&quot;");
        } else if c == '\'' {
            push_text(&mut out, "&apos;");
        } else {
            out.push(c);
        }
        i += 1;
    }
    assert(chars@.take(chars@.len() as int) == chars@);
    string_of(&out)
}

/// A text in which none of `&`, `<`, `>`, `"` and `'` occurs is its own
/// escaped form.
pub proof fn lemma_escape_plain(s: Seq<char>)
    requires
        forall|i: int|
            0 <= i < s.len() ==> s[i] != '&' && s[i] != '<' && s[i] != '>' && s[i] != '"' && s[i]
                != '\'',
    ensures
        xml_escaped(s) == s,
    decreases s.len(),
{
    if s.len() > 0 {
        lemma_escape_plain(s.drop_last());
    }
}

/// The milliseconds that `std::time::Duration::as_millis` gives for a
/// duration.
pub uninterp spec fn duration_millis(duration: Duration) -> nat;

/// `std::time::Duration::as_millis`.
#[verifier::external_body]
fn millis_of(duration: &Duration) -> (r: u128)
    ensures
        r == duration_millis(*duration),
{
    duration.as_millis()
}

/// The text that `to_string_lossy` gives for a `std::path::PathBuf`.
pub uninterp spec fn path_lossy_text(path: PathBuf) -> Seq<char>;

/// `to_string_lossy` of a `std::path::PathBuf`, as an owned text.
#[verifier::external_body]
fn lossy_text(path: &PathBuf) -> (r: String)
    ensures
        r@ == path_lossy_text(*path),
{
    path.to_string_lossy().into_owned()
}

/// A result with what a JSON report shows of its file and its duration.
pub struct Measured<'a> {
    pub result: &'a ExecutionResult,
    /// The path of the file, as text.
    pub file: String,
    /// The duration in milliseconds.
    pub millis: u128,
}

/// What a `Measured` holds.
pub ghost struct MeasuredModel {
    pub result: ResultModel,
    pub file: Seq<char>,
    pub millis: nat,
}

impl<'a> View for Measured<'a> {
    type V = MeasuredModel;

    open spec fn view(&self) -> MeasuredModel {
        MeasuredModel { result: self.result@, file: self.file@, millis: self.millis as nat }
    }
}

/// The views of a list of measured results.
pub open spec fn measured_view(entries: Seq<Measured>) -> Seq<MeasuredModel> {
    Seq::new(entries.len(), |i: int| entries[i]@)
}

/// The results with their files and durations as the outside gives them.
pub open spec fn is_measuring(results: Seq<ExecutionResult>, entries: Seq<Measured>) -> bool {
    &&& entries.len() == results.len()
    &&& forall|i: int|
        0 <= i < results.len() ==> {
            &&& *(#[trigger] entries[i]).result == results[i]
            &&& entries[i].file@ == path_lossy_text(results[i].file)
            &&& entries[i].millis == duration_millis(results[i].duration)
        }
}

/// The results with their files and durations.
pub fn measure_results<'a>(results: &'a [ExecutionResult]) -> (r: Vec<Measured<'a>>)
    ensures
        is_measuring(results@, r@),
{
    let mut entries: Vec<Measured<'a>> = Vec::new();
    let mut i: usize = 0;
    while i < results.len()
        invariant
            i <= results.len(),
            entries@.len() == i,
            forall|j: int|
                0 <= j < i ==> {
                    &&& *(#[trigger] entries@[j]).result == results@[j]
                    &&& entries@[j].file@ == path_lossy_text(results@[j].file)
                    &&& entries@[j].millis == duration_millis(results@[j].duration)
                },
        decreases results.len() - i,
    {
        entries.push(
            Measured {
                result: &results[i],
                file: lossy_text(&results[i].file),
                millis: millis_of(&results[i].duration),
            },
        );
        i += 1;
    }
    entries
}

/// A text, or null where there is none.
pub open spec fn json_optional(text: Option<Seq<char>>) -> JsonModel {
    match text {
        Some(t) => JsonModel::String(t),
        None => JsonModel::Null,
    }
}

/// An outcome in a JSON report.
pub open spec fn json_outcome(outcome: OutcomeModel) -> JsonModel {
    JsonModel::Object(
        seq![
            ("expression"@, JsonModel::String(outcome.expression)),
            ("expected"@, JsonModel::String(outcome.expected)),
            ("actual"@, json_optional(outcome.actual)),
            ("passed"@, JsonModel::Bool(outcome.passed)),
            ("message"@, JsonModel::String(outcome.message)),
        ],
    )
}

/// The outcomes of a result in a JSON report, in order.
pub open spec fn json_outcomes(outcomes: Seq<OutcomeModel>) -> Seq<JsonModel> {
    Seq::new(outcomes.len(), |i: int| json_outcome(outcomes[i]))
}

/// A result in a JSON report.
pub open spec fn json_result(entry: MeasuredModel) -> JsonModel {
    JsonModel::Object(
        seq![
            ("file"@, JsonModel::String(entry.file)),
            ("method"@, JsonModel::String(entry.result.method)),
            ("url"@, JsonModel::String(entry.result.url)),
            (
                "status"@,
                match entry.result.status {
                    Some(code) => JsonModel::Number(decimal_text(code as nat)),
                    None => JsonModel::Null,
                },
            ),
            ("duration_ms"@, JsonModel::Number(decimal_text(entry.millis))),
            ("passed"@, JsonModel::Bool(!entry.result.failed)),
            ("assertions"@, JsonModel::Array(json_outcomes(entry.result.outcomes))),
            ("error"@, json_optional(entry.result.error)),
        ],
    )
}

/// The results in a JSON report, in order.
pub open spec fn json_results(entries: Seq<MeasuredModel>) -> Seq<JsonModel> {
    Seq::new(entries.len(), |i: int| json_result(entries[i]))
}

/// The number of failures among the first `count` measured results.
pub open spec fn failed_entries(entries: Seq<MeasuredModel>, count: int) -> nat
    decreases count,
{
    if count <= 0 {
        0
    } else {
        failed_entries(entries, count - 1) + (if entries[count - 1].result.failed {
            1nat
        } else {
            0nat
        })
    }
}

/// There are no more failures than results.
pub proof fn lemma_failed_entries(entries: Seq<MeasuredModel>, count: int)
    requires
        0 <= count,
    ensures
        failed_entries(entries, count) <= count,
    decreases count,
{
    if count > 0 {
        lemma_failed_entries(entries, count - 1);
    }
}

/// A JSON report: the summary of the run, and the results.
pub open spec fn json_report(entries: Seq<MeasuredModel>, total_millis: nat) -> JsonModel {
    let failed = failed_entries(entries, entries.len() as int);
    JsonModel::Object(
        seq![
            (
                "summary"@,
                JsonModel::Object(
                    seq![
                        ("total"@, JsonModel::Number(decimal_text(entries.len()))),
                        (
                            "passed"@,
                            JsonModel::Number(decimal_text((entries.len() - failed) as nat)),
                        ),
                        ("failed"@, JsonModel::Number(decimal_text(failed))),
                        ("duration_ms"@, JsonModel::Number(decimal_text(total_millis))),
                    ],
                ),
            ),
            ("results"@, JsonModel::Array(json_results(entries))),
        ],
    )
}

/// An outcome in a JSON report.
fn outcome_document(outcome: &AssertionResult) -> (r: JsonValue)
    ensures
        r@ == json_outcome(outcome@),
{
    let mut members: Vec<(String, JsonValue)> = Vec::new();
    push_member(&mut members, "expression", JsonValue::text(outcome.expression.as_str()));
    push_member(&mut members, "expected", JsonValue::text(outcome.expected.as_str()));
    push_member(&mut members, "actual", JsonValue::optional_text(&outcome.actual));
    push_member(&mut members, "passed", JsonValue::Bool(outcome.passed));
    push_member(&mut members, "message", JsonValue::text(outcome.message.as_str()));
    let r = JsonValue::object(members);
    assert(r@->Object_0 =~= json_outcome(outcome@)->Object_0);
    r
}

/// A result in a JSON report.
fn result_document(entry: &Measured) -> (r: JsonValue)
    ensures
        r@ == json_result(entry@),
{
    let result = entry.result;
    let mut outcomes: Vec<JsonValue> = Vec::new();
    let mut i: usize = 0;
    while i < result.assertions.len()
        invariant
            i <= result.assertions.len(),
            items_view(outcomes@) == json_outcomes(outcomes_view(result.assertions@)).take(
                i as int,
            ),
        decreases result.assertions.len() - i,
    {
        push_item(&mut outcomes, outcome_document(&result.assertions[i]));
        i += 1;
    }
    assert(json_outcomes(outcomes_view(result.assertions@)).take(
        result.assertions@.len() as int,
    ) =~= json_outcomes(outcomes_view(result.assertions@)));
    let status = match result.status {
        Some(code) => JsonValue::number(code as u128),
        None => JsonValue::Null,
    };
    let mut members: Vec<(String, JsonValue)> = Vec::new();
    push_member(&mut members, "file", JsonValue::text(entry.file.as_str()));
    push_member(&mut members, "method", JsonValue::text(result.method.as_str()));
    push_member(&mut members, "url", JsonValue::text(result.url.as_str()));
    push_member(&mut members, "status", status);
    push_member(&mut members, "duration_ms", JsonValue::number(entry.millis));
    push_member(&mut members, "passed", JsonValue::Bool(!result.failed));
    push_member(&mut members, "assertions", JsonValue::array(outcomes));
    push_member(&mut members, "error", JsonValue::optional_text(&result.error));
    let r = JsonValue::object(members);
    assert(r@->Object_0 =~= json_result(entry@)->Object_0);
    r
}

/// The JSON report on measured results of a run that took `total_millis`
/// milliseconds.
pub fn json_document(entries: &Vec<Measured>, total_millis: u128) -> (r: JsonValue)
    ensures
        r@ == json_report(measured_view(entries@), total_millis as nat),
{
    let ghost all = measured_view(entries@);
    let mut results: Vec<JsonValue> = Vec::new();
    let mut failed: usize = 0;
    let mut i: usize = 0;
    while i < entries.len()
        invariant
            i <= entries.len(),
            all == measured_view(entries@),
            items_view(results@) == json_results(all).take(i as int),
            failed == failed_entries(all, i as int),
            failed <= i,
        decreases entries.len() - i,
    {
        if entries[i].result.failed {
            failed += 1;
        }
        push_item(&mut results, result_document(&entries[i]));
        i += 1;
    }
    assert(json_results(all).take(all.len() as int) =~= json_results(all));
    let mut summary: Vec<(String, JsonValue)> = Vec::new();
    push_member(&mut summary, "total", JsonValue::number(entries.len() as u128));
    push_member(&mut summary, "passed", JsonValue::number((entries.len() - failed) as u128));
    push_member(&mut summary, "failed", JsonValue::number(failed as u128));
    push_member(&mut summary, "duration_ms", JsonValue::number(total_millis));
    let summary = JsonValue::object(summary);
    assert(summary@->Object_0 =~= seq![
        ("total"@, JsonModel::Number(decimal_text(all.len()))),
        ("passed"@, JsonModel::Number(decimal_text((all.len() - failed) as nat))),
        ("failed"@, JsonModel::Number(decimal_text(failed as nat))),
        ("duration_ms"@, JsonModel::Number(decimal_text(total_millis as nat))),
    ]);
    let mut report: Vec<(String, JsonValue)> = Vec::new();
    push_member(&mut report, "summary", summary);
    push_member(&mut report, "results", JsonValue::array(results));
    let r = JsonValue::object(report);
    assert(r@->Object_0 =~= seq![
        ("summary"@, summary@),
        ("results"@, JsonModel::Array(json_results(all))),
    ]);
    r
}

/// JSON formatter.
#[derive(Debug, Clone, Copy, PartialEq, Eq, Structural)]
pub struct JsonFormatter;

impl JsonFormatter {
    /// The formatter.
    pub fn new() -> (r: Self)
        ensures
            r == JsonFormatter,
    {
        JsonFormatter
    }
}

impl OutputFormatter for JsonFormatter {
    /// The JSON report on the results, indented: each result with its file
    /// and its duration as the outside gives them.
    fn format(&self, results: &[ExecutionResult], total_duration: Duration) -> (r: String)
        ensures
            exists|entries: Seq<Measured>|
                is_measuring(results@, entries) && r@ == json_pretty_text(
                    serde_form(
                        #[trigger] json_report(
                            measured_view(entries),
                            duration_millis(total_duration),
                        ),
                    ),
                ),
    {
        let entries = measure_results(results);
        let document = json_document(&entries, millis_of(&total_duration));
        document.pretty_text()
    }
}

/// JUnit XML formatter. The report is composed by `junit::junit_text`, from
/// suites whose times are handed in as texts.
#[derive(Debug, Clone, Copy, PartialEq, Eq, Structural)]
pub struct JunitFormatter;

impl JunitFormatter {
    /// The formatter.
    pub fn new() -> (r: Self)
        ensures
            r == JunitFormatter,
    {
        JunitFormatter
    }
}

} // verus!
