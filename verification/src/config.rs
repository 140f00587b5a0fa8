//! Configuration: defaults, and the variables that an environment file
//! declares.

use vstd::prelude::*;
use crate::http::HttpConfig;
use crate::strmap::StringMap;
use crate::template::{
    find_placeholder, lemma_placeholder_at, lookup_or_empty, placeholder_at, placeholder_name,
};
use crate::text::{append_chars, chars_of, slice_chars, string_of};

verus! {
/// How results are shown.
#[derive(Debug)]
pub struct OutputConfig {
    pub default_format: String,
    pub colors: bool,
}

impl Default for OutputConfig {
    fn default() -> (r: Self)
        ensures
            r.default_format@ == "table"@,
            r.colors,
    {
        OutputConfig { default_format: default_format(), colors: default_true() }
    }
}

/// How requests are run.
#[derive(Debug)]
pub struct ExecutionConfig {
    pub parallel: usize,
    pub retries: u32,
    pub retry_delay: u64,
}

impl Default for ExecutionConfig {
    fn default() -> (r: Self)
        ensures
            r.parallel == 1,
            r.retries == 0,
            r.retry_delay == 1000,
    {
        ExecutionConfig { parallel: default_one(), retries: 0, retry_delay: default_retry_delay() }
    }
}

/// The format of the output where a configuration file names none.
pub fn default_format() -> (r: String)
    ensures
        r@ == "table"@,
{
    "table".to_owned()
}

/// Whether output is coloured where a configuration file does not say.
pub fn default_true() -> (r: bool)
    ensures
        r,
{
    true
}

/// The number of requests run at a time where a configuration file names
/// none.
pub fn default_one() -> (r: usize)
    ensures
        r == 1,
{
    1
}

/// The delay between attempts, in milliseconds, where a configuration file
/// names none.
pub fn default_retry_delay() -> (r: u64)
    ensures
        r == 1000,
{
    1000
}

/// Main configuration structure.
#[derive(Debug)]
pub struct Config {
    pub http: HttpConfig,
    pub output: OutputConfig,
    pub execution: ExecutionConfig,
    pub variables: StringMap,
}

impl Default for Config {
    fn default() -> (r: Self)
        ensures
            r.http.timeout == 0,
            !r.http.follow_redirects,
            r.http.max_redirects == 0,
            r.http.proxy is None,
            !r.http.insecure,
            r.output.default_format@ == "table"@,
            r.output.colors,
            r.execution.parallel == 1,
            r.execution.retries == 0,
            r.execution.retry_delay == 1000,
            r.variables@ == Map::<Seq<char>, Seq<char>>::empty(),
            r.variables.well_formed(),
    {
        Config {
            http: HttpConfig::default(),
            output: OutputConfig::default(),
            execution: ExecutionConfig::default(),
            variables: StringMap::new(),
        }
    }
}

/// The mark that opens a reference to the environment.
pub open spec fn reference_open() -> Seq<char> {
    seq!['$', '{']
}

/// The mark that closes a reference to the environment.
pub open spec fn reference_close() -> Seq<char> {
    seq!['}']
}

/// The part of `s` that begins at `from`, with each reference `${NAME}`
/// replaced by what the environment holds under `NAME`, or by nothing
/// where it holds nothing.
pub open spec fn expand_from(s: Seq<char>, from: int, env: Map<Seq<char>, Seq<char>>) -> Seq<char>
    decreases s.len() - from,
{
    if from < 0 || from >= s.len() {
        Seq::empty()
    } else {
        match placeholder_at(s, from, reference_open(), reference_close()) {
            Some(p) => {
                proof {
                    lemma_placeholder_at(s, from, reference_open(), reference_close());
                }
                lookup_or_empty(env, placeholder_name(s, p)) + expand_from(s, p.end, env)
            },
            None => seq![s[from]] + expand_from(s, from + 1, env),
        }
    }
}

/// `s` with each reference `${NAME}` replaced by what the environment holds
/// under `NAME`, or by nothing where it holds nothing.
pub open spec fn expand(s: Seq<char>, env: Map<Seq<char>, Seq<char>>) -> Seq<char> {
    expand_from(s, 0, env)
}

/// `value` with each reference `${NAME}` replaced by what `env` holds under
/// `NAME`.
pub fn resolve_env_vars(value: &str, env: &StringMap) -> (r: String)
    ensures
        r@ == expand(value@, env@),
{
    let s = chars_of(value);
    let open = vec!['$', '{'];
    let close = vec!['}'];
    let mut out: Vec<char> = Vec::new();
    let mut at: usize = 0;
    while at < s.len()
        invariant
            at <= s.len(),
            s@ == value@,
            open@ == reference_open(),
            close@ == reference_close(),
            expand(value@, env@) == out@ + expand_from(s@, at as int, env@),
        decreases s.len() - at,
    {
        match find_placeholder(&s, at, &open, &close) {
            Some(p) => {
                proof {
                    lemma_placeholder_at(s@, at as int, open@, close@);
                }
                let name = string_of(&slice_chars(&s, p.name_from, p.name_to));
                match env.get(name.as_str()) {
                    Some(text) => {
                        append_chars(&mut out, &chars_of(text.as_str()));
                    },
                    None => {},
                }
                at = p.end;
            },
            None => {
                out.push(s[at]);
                at += 1;
            },
        }
    }
    string_of(&out)
}

/// Behind `from`, a text without `$` expands to itself.
proof fn lemma_expand_from_plain(s: Seq<char>, from: int, env: Map<Seq<char>, Seq<char>>)
    requires
        forall|i: int| 0 <= i < s.len() ==> s[i] != '$',
        0 <= from <= s.len(),
    ensures
        expand_from(s, from, env) == s.subrange(from, s.len() as int),
    decreases s.len() - from,
{
    if from < s.len() {
        lemma_expand_from_plain(s, from + 1, env);
    }
}

/// A text in which no `$` occurs expands to itself, whatever the
/// environment holds.
pub proof fn lemma_expand_identity(s: Seq<char>, env: Map<Seq<char>, Seq<char>>)
    requires
        forall|i: int| 0 <= i < s.len() ==> s[i] != '$',
    ensures
        expand(s, env) == s,
{
    lemma_expand_from_plain(s, 0, env);
}

/// The variables after the first `count` declarations of an environment
/// file are merged: each declared text is expanded against the process
/// environment and stored under its name, over what was stored there.
pub open spec fn merged_variables(
    variables: Map<Seq<char>, Seq<char>>,
    declared: Seq<(Seq<char>, Seq<char>)>,
    env: Map<Seq<char>, Seq<char>>,
    count: int,
) -> Map<Seq<char>, Seq<char>>
    decreases count,
{
    if count <= 0 {
        variables
    } else {
        merged_variables(variables, declared, env, count - 1).insert(
            declared[count - 1].0,
            expand(declared[count - 1].1, env),
        )
    }
}

impl Config {
    /// Merges the variables that an environment file declares into the
    /// configuration's own: each declared text is expanded against the
    /// process environment and stored under its name, so that it shadows a
    /// default of the same name.
    pub fn merge_environment(&mut self, declared: &StringMap, env: &StringMap)
        ensures
            final(self).variables@ == merged_variables(
                old(self).variables@,
                declared.pairs(),
                env@,
                declared.pairs().len() as int,
            ),
            old(self).variables.well_formed() ==> final(self).variables.well_formed(),
            final(self).http == old(self).http,
            final(self).output == old(self).output,
            final(self).execution == old(self).execution,
    {
        let n = declared.len();
        let mut i: usize = 0;
        while i < n
            invariant
                i <= n,
                n == declared.pairs().len(),
                self.variables@ == merged_variables(
                    old(self).variables@,
                    declared.pairs(),
                    env@,
                    i as int,
                ),
                old(self).variables.well_formed() ==> self.variables.well_formed(),
                self.http == old(self).http,
                self.output == old(self).output,
                self.execution == old(self).execution,
            decreases n - i,
        {
            let resolved = resolve_env_vars(declared.text_at(i).as_str(), env);
            self.variables.insert(declared.name_at(i).clone(), resolved);
            i += 1;
        }
    }
}

} // verus!
