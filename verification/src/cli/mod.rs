//! The command line as data, and the small computations on what it is
//! given.

pub mod config;
pub mod export;
pub mod files;
pub mod import;

use vstd::prelude::*;
use std::path::PathBuf;
use crate::parser::ReqxFile;
use crate::template::variable_open;
use crate::text::{
    chars_of, find_chars, first_occurrence, lemma_first_occurrence_from, push_text, slice_chars,
    string_of,
};

verus! {
/// The command line.
#[derive(Debug)]
pub struct Cli {
    pub command: Commands,
    /// Enable verbose output.
    pub verbose: bool,
    /// Disable colored output.
    pub no_color: bool,
}

/// The commands.
#[derive(Debug)]
#[allow(inconsistent_fields)]
pub enum Commands {
    /// Initialize a new collection.
    Init { force: bool },
    /// Execute API requests.
    Run {
        path: PathBuf,
        env: Option<String>,
        output: OutputFormat,
        output_file: Option<PathBuf>,
        fail_fast: bool,
        parallel: usize,
        timeout: u64,
        retries: u32,
        retry_delay: u64,
        var: Vec<(String, String)>,
        var_file: Option<PathBuf>,
        filter: Option<String>,
        exclude: Option<String>,
        dry_run: bool,
    },
    /// Validate the syntax of descriptors.
    Validate { path: PathBuf, strict: bool },
    /// Watch for file changes and run again.
    Watch { path: PathBuf, env: Option<String>, filter: Option<String>, debounce: u64 },
    /// Wait for an API to be ready.
    Health { path: PathBuf, retries: u32, retry_delay: u64, timeout: u64 },
    /// Manage configuration.
    Config { action: ConfigAction },
    /// Import from other formats.
    Import { format: ImportFormat, path: PathBuf },
    /// Export to other formats.
    Export { format: ExportFormat, path: PathBuf },
    /// Generate shell completions.
    Completions { shell: Shell },
}

/// What to do with the configuration.
#[derive(Debug)]
pub enum ConfigAction {
    /// Get a configuration value.
    Get { key: String },
    /// Set a configuration value.
    SetValue { key: String, value: String },
    /// List all configuration.
    List,
    /// Edit configuration in an editor.
    Edit,
}

/// How results are written.
#[derive(Debug, Clone, Copy, PartialEq, Eq, Structural)]
pub enum OutputFormat {
    Table,
    Json,
    Junit,
    Tap,
    Silent,
}

/// The formats that can be imported.
#[derive(Debug, Clone, Copy, PartialEq, Eq, Structural)]
pub enum ImportFormat {
    Postman,
    Openapi,
    Curl,
    Har,
    Insomnia,
}

/// The formats that can be exported.
#[derive(Debug, Clone, Copy, PartialEq, Eq, Structural)]
pub enum ExportFormat {
    Postman,
    Openapi,
}

/// The shells for which completions can be generated.
#[derive(Debug, Clone, Copy, PartialEq, Eq, Structural)]
pub enum Shell {
    Bash,
    Zsh,
    Fish,
    PowerShell,
}

/// The options of a run.
#[derive(Debug)]
pub struct RunOptions {
    pub path: PathBuf,
    pub env: Option<String>,
    pub output: OutputFormat,
    pub output_file: Option<PathBuf>,
    pub fail_fast: bool,
    pub parallel: usize,
    pub timeout: u64,
    pub retries: u32,
    pub retry_delay: u64,
    pub var: Vec<(String, String)>,
    pub var_file: Option<PathBuf>,
    pub filter: Option<String>,
    pub exclude: Option<String>,
    pub dry_run: bool,
    pub verbose: bool,
    pub no_color: bool,
}

/// The sign between the key and the value of an override.
pub open spec fn equals_sign() -> Seq<char> {
    seq!['=']
}

/// The pair that `KEY=VALUE` writes: what stands before the first `=` and
/// what stands behind it; an error that quotes the text where it holds no
/// `=`.
pub open spec fn key_value(s: Seq<char>) -> Result<(Seq<char>, Seq<char>), Seq<char>> {
    match first_occurrence(s, equals_sign()) {
        Some(at) => Ok((s.take(at), s.skip(at + 1))),
        None => Err("invalid KEY=VALUE: no `=` found in `"@ + s + "`"@),
    }
}

/// The view of a parsed override.
pub open spec fn key_value_view(r: Result<(String, String), String>) -> Result<
    (Seq<char>, Seq<char>),
    Seq<char>,
> {
    match r {
        Ok(pair) => Ok((pair.0@, pair.1@)),
        Err(message) => Err(message@),
    }
}

/// Parse KEY=VALUE pairs.
pub fn parse_key_value(s: &str) -> (r: Result<(String, String), String>)
    ensures
        key_value_view(r) == key_value(s@),
{
    let chars = chars_of(s);
    let sign = vec!['='];
    assert(sign@ =~= equals_sign());
    match find_chars(&chars, &sign) {
        Some(at) => {
            assert(at + sign@.len() <= chars@.len() == chars.len());
            let key = string_of(&slice_chars(&chars, 0, at));
            let value = string_of(&slice_chars(&chars, at + 1, chars.len()));
            Ok((key, value))
        },
        None => {
            let mut message: Vec<char> = Vec::new();
            push_text(&mut message, "invalid KEY=VALUE: no `=` found in `");
            push_text(&mut message, s);
            push_text(&mut message, "`");
            Err(string_of(&message))
        },
    }
}

/// A key and a value written with `=` between them are read back as that
/// key and that value, where the key holds no `=`.
pub proof fn lemma_key_value_round_trip(key: Seq<char>, value: Seq<char>)
    requires
        forall|i: int| 0 <= i < key.len() ==> key[i] != '=',
    ensures
        key_value(key + equals_sign() + value) == Ok::<(Seq<char>, Seq<char>), Seq<char>>(
            (key, value),
        ),
{
    let s = key + equals_sign() + value;
    let at = key.len() as int;
    lemma_first_occurrence_from(s, equals_sign(), 0);
    assert(s.subrange(at, at + 1) == equals_sign());
    assert forall|j: int| 0 <= j < at implies !crate::text::occurs_at(s, equals_sign(), j) by {
        if crate::text::occurs_at(s, equals_sign(), j) {
            assert(s.subrange(j, j + 1)[0] == '=');
        }
    }
    assert(crate::text::occurs_at(s, equals_sign(), at));
    assert(s.take(at) == key);
    assert(s.skip(at + 1) == value);
}

/// What is worth a warning in a descriptor that parses: that it declares
/// no assertion, and that its URL holds no `{{`.
pub open spec fn warnings_of(assertion_count: nat, url: Seq<char>) -> Seq<Seq<char>> {
    let first = if assertion_count == 0 {
        seq!["No assertions defined"@]
    } else {
        Seq::empty()
    };
    let second = if first_occurrence(url, variable_open()) is None {
        seq!["URL does not use variables - consider using {{base_url}}"@]
    } else {
        Seq::empty()
    };
    first + second
}

/// The warnings for a descriptor.
pub fn validate_warnings(reqx_file: &ReqxFile) -> (r: Vec<String>)
    ensures
        Seq::new(r@.len(), |i: int| r@[i]@) == warnings_of(
            reqx_file.assertions@.len(),
            reqx_file.request.url@,
        ),
{
    let mut warnings: Vec<String> = Vec::new();
    if reqx_file.assertions.len() == 0 {
        warnings.push("No assertions defined".to_owned());
    }
    let url = chars_of(reqx_file.request.url.as_str());
    let open = vec!['{', '{'];
    if find_chars(&url, &open).is_none() {
        warnings.push("URL does not use variables - consider using {{base_url}}".to_owned());
    }
    warnings
}

/// Whether a validation has failed: where a descriptor did not parse, or,
/// in strict mode, where there is a warning.
pub fn validation_fails(errors: usize, warnings: usize, strict: bool) -> (r: bool)
    ensures
        r == (errors > 0 || (strict && warnings > 0)),
{
    errors > 0 || (strict && warnings > 0)
}

} // verus!
