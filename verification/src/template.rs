//! Placeholders in text: where they stand, and what takes their place.
//!
//! A placeholder is an opening mark, a name of one or more characters other
//! than `}`, and a closing mark. A text is read from the left; where a
//! placeholder begins it is taken whole, and reading goes on behind it.

use vstd::prelude::*;
use crate::strmap::StringMap;
use crate::text::{
    append_chars, chars_of, matches_at, occurs_at, same_chars, slice_chars, string_of,
};

verus! {
/// The end of the name that begins at `from`: the position of the next `}`,
/// or the end of the text.
pub open spec fn name_end(s: Seq<char>, from: int) -> int
    decreases s.len() - from,
{
    if from < 0 || from >= s.len() {
        s.len() as int
    } else if s[from] == '}' {
        from
    } else {
        name_end(s, from + 1)
    }
}

/// A name ends at or after its beginning, within the text, and holds no
/// `}`.
pub proof fn lemma_name_end(s: Seq<char>, from: int)
    requires
        0 <= from <= s.len(),
    ensures
        from <= name_end(s, from) <= s.len(),
        forall|k: int| from <= k < name_end(s, from) ==> #[trigger] s[k] != '}',
        name_end(s, from) < s.len() ==> s[name_end(s, from)] == '}',
    decreases s.len() - from,
{
    if from < s.len() && s[from] != '}' {
        lemma_name_end(s, from + 1);
    }
}

/// A placeholder in a text: the range of its name, and where it ends.
pub struct Placeholder {
    pub name_from: usize,
    pub name_to: usize,
    pub end: usize,
}

/// Where a placeholder lies in a text.
pub ghost struct PlaceholderSpan {
    pub name_from: int,
    pub name_to: int,
    pub end: int,
}

impl View for Placeholder {
    type V = PlaceholderSpan;

    open spec fn view(&self) -> PlaceholderSpan {
        PlaceholderSpan {
            name_from: self.name_from as int,
            name_to: self.name_to as int,
            end: self.end as int,
        }
    }
}

/// The placeholder that begins at `at`, if one does: the opening mark, a
/// name of at least one character that runs up to the next `}`, and the
/// closing mark.
pub open spec fn placeholder_at(s: Seq<char>, at: int, open: Seq<char>, close: Seq<char>) -> Option<
    PlaceholderSpan,
> {
    let name_from = at + open.len();
    let name_to = name_end(s, name_from);
    if occurs_at(s, open, at) && name_from < name_to && occurs_at(s, close, name_to) {
        Some(PlaceholderSpan { name_from, name_to, end: name_to + close.len() })
    } else {
        None
    }
}

/// The name of a placeholder of `s`.
pub open spec fn placeholder_name(s: Seq<char>, p: PlaceholderSpan) -> Seq<char> {
    s.subrange(p.name_from, p.name_to)
}

/// A placeholder lies within its text, and ends behind where it begins.
pub proof fn lemma_placeholder_at(s: Seq<char>, at: int, open: Seq<char>, close: Seq<char>)
    requires
        placeholder_at(s, at, open, close) is Some,
    ensures
        ({
            let p = placeholder_at(s, at, open, close)->0;
            &&& at + open.len() == p.name_from
            &&& p.name_from < p.name_to
            &&& p.name_to + close.len() == p.end
            &&& p.end <= s.len()
            &&& at < p.end
            &&& forall|k: int| p.name_from <= k < p.name_to ==> #[trigger] s[k] != '}'
        }),
{
    lemma_name_end(s, at + open.len());
}

/// The placeholder that begins at `at`.
pub fn find_placeholder(s: &[char], at: usize, open: &[char], close: &[char]) -> (r: Option<
    Placeholder,
>)
    ensures
        match r {
            Some(p) => placeholder_at(s@, at as int, open@, close@) == Some(p@),
            None => placeholder_at(s@, at as int, open@, close@) is None,
        },
{
    if !matches_at(s, open, at) {
        return None;
    }
    assert(at + open@.len() <= s@.len() == s.len());
    let name_from: usize = at + open.len();
    let mut name_to: usize = name_from;
    while name_to < s.len() && s[name_to] != '}'
        invariant
            name_from <= name_to <= s.len(),
            name_end(s@, name_from as int) == name_end(s@, name_to as int),
        decreases s.len() - name_to,
    {
        name_to += 1;
    }
    if name_to > name_from && matches_at(s, close, name_to) {
        Some(Placeholder { name_from, name_to, end: name_to + close.len() })
    } else {
        None
    }
}

/// The mark that opens a variable placeholder.
pub open spec fn variable_open() -> Seq<char> {
    seq!['{', '{']
}

/// The mark that closes a variable placeholder.
pub open spec fn variable_close() -> Seq<char> {
    seq!['}', '}']
}

/// The names that stand for a value made afresh at each occurrence.
#[derive(Debug, Clone, Copy, PartialEq, Eq, Structural)]
pub enum DynamicToken {
    /// `$uuid`: a random UUID.
    Uuid,
    /// `$timestamp`: the seconds since the Unix epoch.
    Timestamp,
    /// `$random`: a number below one million.
    Random,
    /// `$date`: the calendar date in UTC.
    Date,
    /// `$datetime`: date and time in UTC.
    Datetime,
}

/// The token that a name stands for, if it is one of the reserved names.
pub open spec fn dynamic_token(name: Seq<char>) -> Option<DynamicToken> {
    if name == "$uuid"@ {
        Some(DynamicToken::Uuid)
    } else if name == "$timestamp"@ {
        Some(DynamicToken::Timestamp)
    } else if name == "$random"@ {
        Some(DynamicToken::Random)
    } else if name == "$date"@ {
        Some(DynamicToken::Date)
    } else if name == "$datetime"@ {
        Some(DynamicToken::Datetime)
    } else {
        None
    }
}

/// The token that a name stands for.
pub fn classify_name(name: &[char]) -> (r: Option<DynamicToken>)
    ensures
        r == dynamic_token(name@),
{
    if same_chars(name, &chars_of("$uuid")) {
        Some(DynamicToken::Uuid)
    } else if same_chars(name, &chars_of("$timestamp")) {
        Some(DynamicToken::Timestamp)
    } else if same_chars(name, &chars_of("$random")) {
        Some(DynamicToken::Random)
    } else if same_chars(name, &chars_of("$date")) {
        Some(DynamicToken::Date)
    } else if same_chars(name, &chars_of("$datetime")) {
        Some(DynamicToken::Datetime)
    } else {
        None
    }
}

/// The text stored under `name`, or the empty text.
pub open spec fn lookup_or_empty(map: Map<Seq<char>, Seq<char>>, name: Seq<char>) -> Seq<char> {
    if map.contains_key(name) {
        map[name]
    } else {
        Seq::empty()
    }
}

/// What stands for a name that is not a reserved one. A name that begins
/// with `$` is looked up, without the `$`, in the environment. Any other
/// name is looked up in the scope, then in the environment. A name that is
/// found nowhere stands for the empty text.
pub open spec fn resolve_name(
    name: Seq<char>,
    scope: Map<Seq<char>, Seq<char>>,
    env: Map<Seq<char>, Seq<char>>,
) -> Seq<char> {
    if name.len() > 0 && name[0] == '$' {
        lookup_or_empty(env, name.subrange(1, name.len() as int))
    } else if scope.contains_key(name) {
        scope[name]
    } else {
        lookup_or_empty(env, name)
    }
}

/// What stands for a name that is not a reserved one.
pub fn resolve_variable(name: &[char], scope: &StringMap, env: &StringMap) -> (r: Vec<char>)
    ensures
        r@ == resolve_name(name@, scope@, env@),
{
    if name.len() > 0 && name[0] == '$' {
        let key = string_of(&slice_chars(name, 1, name.len()));
        match env.get(key.as_str()) {
            Some(text) => chars_of(text.as_str()),
            None => Vec::new(),
        }
    } else {
        let key = string_of(name);
        match scope.get(key.as_str()) {
            Some(text) => chars_of(text.as_str()),
            None => match env.get(key.as_str()) {
                Some(text) => chars_of(text.as_str()),
                None => Vec::new(),
            },
        }
    }
}

/// The `i`-th of the fresh values, or the empty text where there are fewer.
pub open spec fn fresh_at(fresh: Seq<Seq<char>>, i: nat) -> Seq<char> {
    if i < fresh.len() {
        fresh[i as int]
    } else {
        Seq::empty()
    }
}

/// The reserved names that occur as placeholders in the part of `s` that
/// begins at `from`, in order, one for each occurrence.
pub open spec fn dynamic_tokens_from(s: Seq<char>, from: int) -> Seq<DynamicToken>
    decreases s.len() - from,
{
    if from < 0 || from >= s.len() {
        Seq::empty()
    } else {
        match placeholder_at(s, from, variable_open(), variable_close()) {
            Some(p) => {
                proof {
                    lemma_placeholder_at(s, from, variable_open(), variable_close());
                }
                match dynamic_token(placeholder_name(s, p)) {
                    Some(token) => seq![token] + dynamic_tokens_from(s, p.end),
                    None => dynamic_tokens_from(s, p.end),
                }
            },
            None => dynamic_tokens_from(s, from + 1),
        }
    }
}

/// The reserved names that occur as placeholders in `s`.
pub open spec fn dynamic_tokens(s: Seq<char>) -> Seq<DynamicToken> {
    dynamic_tokens_from(s, 0)
}

/// The part of `s` that begins at `from`, with each placeholder replaced.
/// The `k`-th placeholder with a reserved name, counted from `used`, is
/// replaced by the `k`-th fresh value; any other by what its name stands
/// for.
pub open spec fn render_from(
    s: Seq<char>,
    from: int,
    scope: Map<Seq<char>, Seq<char>>,
    env: Map<Seq<char>, Seq<char>>,
    fresh: Seq<Seq<char>>,
    used: nat,
) -> Seq<char>
    decreases s.len() - from,
{
    if from < 0 || from >= s.len() {
        Seq::empty()
    } else {
        match placeholder_at(s, from, variable_open(), variable_close()) {
            Some(p) => {
                proof {
                    lemma_placeholder_at(s, from, variable_open(), variable_close());
                }
                let name = placeholder_name(s, p);
                if dynamic_token(name) is Some {
                    fresh_at(fresh, used) + render_from(
                        s,
                        p.end,
                        scope,
                        env,
                        fresh,
                        used + 1,
                    )
                } else {
                    resolve_name(name, scope, env) + render_from(
                        s,
                        p.end,
                        scope,
                        env,
                        fresh,
                        used,
                    )
                }
            },
            None => seq![s[from]] + render_from(s, from + 1, scope, env, fresh, used),
        }
    }
}

/// `s` with each placeholder replaced: one with a reserved name by the
/// fresh value of its occurrence, any other by what its name stands for.
pub open spec fn render(
    s: Seq<char>,
    scope: Map<Seq<char>, Seq<char>>,
    env: Map<Seq<char>, Seq<char>>,
    fresh: Seq<Seq<char>>,
) -> Seq<char> {
    render_from(s, 0, scope, env, fresh, 0)
}

/// The views of a list of strings.
pub open spec fn strings_view(strings: Seq<String>) -> Seq<Seq<char>> {
    Seq::new(strings.len(), |i: int| strings[i]@)
}

/// The reserved names that occur as placeholders in `input`, in order.
pub fn scan_dynamic_tokens(input: &str) -> (r: Vec<DynamicToken>)
    ensures
        r@ == dynamic_tokens(input@),
{
    let s = chars_of(input);
    let open = chars_of("{{");
    let close = chars_of("}}");
    proof {
        reveal_strlit("{{");
        reveal_strlit("}}");
    }
    let mut tokens: Vec<DynamicToken> = Vec::new();
    let mut at: usize = 0;
    while at < s.len()
        invariant
            at <= s.len(),
            s@ == input@,
            open@ == variable_open(),
            close@ == variable_close(),
            dynamic_tokens(input@) == tokens@ + dynamic_tokens_from(s@, at as int),
        decreases s.len() - at,
    {
        match find_placeholder(&s, at, &open, &close) {
            Some(p) => {
                proof {
                    lemma_placeholder_at(s@, at as int, open@, close@);
                }
                let name = slice_chars(&s, p.name_from, p.name_to);
                match classify_name(&name) {
                    Some(token) => {
                        tokens.push(token);
                    },
                    None => {},
                }
                at = p.end;
            },
            None => {
                at += 1;
            },
        }
    }
    tokens
}

/// `input` with each placeholder replaced: one with a reserved name by the
/// fresh value of its occurrence, any other by what its name stands for in
/// the scope and the environment.
pub fn render_template(input: &str, scope: &StringMap, env: &StringMap, fresh: &Vec<String>) -> (r:
    String)
    ensures
        r@ == render(input@, scope@, env@, strings_view(fresh@)),
{
    let s = chars_of(input);
    let open = chars_of("{{");
    let close = chars_of("}}");
    proof {
        reveal_strlit("{{");
        reveal_strlit("}}");
    }
    let ghost values = strings_view(fresh@);
    let mut out: Vec<char> = Vec::new();
    let mut used: usize = 0;
    let mut at: usize = 0;
    while at < s.len()
        invariant
            at <= s.len(),
            used <= at,
            s@ == input@,
            open@ == variable_open(),
            close@ == variable_close(),
            values == strings_view(fresh@),
            render(input@, scope@, env@, values) == out@ + render_from(
                s@,
                at as int,
                scope@,
                env@,
                values,
                used as nat,
            ),
        decreases s.len() - at,
    {
        match find_placeholder(&s, at, &open, &close) {
            Some(p) => {
                proof {
                    lemma_placeholder_at(s@, at as int, open@, close@);
                }
                let name = slice_chars(&s, p.name_from, p.name_to);
                match classify_name(&name) {
                    Some(_) => {
                        if used < fresh.len() {
                            let value = chars_of(fresh[used].as_str());
                            append_chars(&mut out, &value);
                        }
                        used += 1;
                    },
                    None => {
                        let value = resolve_variable(&name, scope, env);
                        append_chars(&mut out, &value);
                    },
                }
                at = p.end;
            },
            None => {
                out.push(s[at]);
                at += 1;
            },
        }
    }
    string_of(&out)
}

/// No placeholder begins anywhere in `s`.
pub open spec fn has_no_placeholder(s: Seq<char>) -> bool {
    forall|at: int|
        0 <= at < s.len() ==> (#[trigger] placeholder_at(
            s,
            at,
            variable_open(),
            variable_close(),
        )) is None
}

/// Behind `from`, a text without placeholders renders as itself.
proof fn lemma_render_from_plain(
    s: Seq<char>,
    from: int,
    scope: Map<Seq<char>, Seq<char>>,
    env: Map<Seq<char>, Seq<char>>,
    fresh: Seq<Seq<char>>,
    used: nat,
)
    requires
        has_no_placeholder(s),
        0 <= from <= s.len(),
    ensures
        render_from(s, from, scope, env, fresh, used) == s.subrange(from, s.len() as int),
    decreases s.len() - from,
{
    if from < s.len() {
        lemma_render_from_plain(s, from + 1, scope, env, fresh, used);
    }
}

/// Rendering a text in which no placeholder occurs gives the text itself,
/// whatever the scope, the environment and the fresh values are.
pub proof fn lemma_render_identity(
    s: Seq<char>,
    scope: Map<Seq<char>, Seq<char>>,
    env: Map<Seq<char>, Seq<char>>,
    fresh: Seq<Seq<char>>,
)
    requires
        has_no_placeholder(s),
    ensures
        render(s, scope, env, fresh) == s,
{
    lemma_render_from_plain(s, 0, scope, env, fresh, 0);
}

/// A text in which no `{` occurs holds no placeholder.
pub proof fn lemma_no_brace_no_placeholder(s: Seq<char>)
    requires
        forall|i: int| 0 <= i < s.len() ==> s[i] != '{',
    ensures
        has_no_placeholder(s),
{
    assert forall|at: int| 0 <= at < s.len() implies (#[trigger] placeholder_at(
        s,
        at,
        variable_open(),
        variable_close(),
    )) is None by {}
}

/// A name ends at the first `}` behind its beginning.
pub proof fn lemma_name_end_at(s: Seq<char>, from: int, stop: int)
    requires
        0 <= from <= stop < s.len(),
        forall|k: int| from <= k < stop ==> s[k] != '}',
        s[stop] == '}',
    ensures
        name_end(s, from) == stop,
    decreases stop - from,
{
    if from < stop {
        lemma_name_end_at(s, from + 1, stop);
    }
}

/// The text of a variable placeholder: the name between the two marks.
pub open spec fn variable_placeholder(name: Seq<char>) -> Seq<char> {
    variable_open() + name + variable_close()
}

/// A placeholder alone renders as what its name stands for: for a name of
/// at least one character, none of them `}`, that is not a reserved name.
pub proof fn lemma_render_placeholder(
    name: Seq<char>,
    scope: Map<Seq<char>, Seq<char>>,
    env: Map<Seq<char>, Seq<char>>,
    fresh: Seq<Seq<char>>,
)
    requires
        name.len() > 0,
        forall|i: int| 0 <= i < name.len() ==> name[i] != '}',
        dynamic_token(name) is None,
    ensures
        render(variable_placeholder(name), scope, env, fresh) == resolve_name(name, scope, env),
{
    let s = variable_placeholder(name);
    let stop = 2 + name.len() as int;
    assert(s.subrange(0, 2) == variable_open());
    assert(s.subrange(stop, stop + 2) == variable_close());
    assert forall|k: int| 2 <= k < stop implies s[k] != '}' by {}
    lemma_name_end_at(s, 2, stop);
    let p = placeholder_at(s, 0, variable_open(), variable_close());
    assert(placeholder_name(s, p->0) == name);
    assert(render_from(s, stop + 2, scope, env, fresh, 0) == Seq::<char>::empty());
}

/// A placeholder whose name is in the scope renders as exactly the text
/// stored under the name: for a name of at least one character, none of
/// them `}`, that does not begin with `$`.
pub proof fn lemma_render_variable(
    name: Seq<char>,
    scope: Map<Seq<char>, Seq<char>>,
    env: Map<Seq<char>, Seq<char>>,
    fresh: Seq<Seq<char>>,
)
    requires
        name.len() > 0,
        forall|i: int| 0 <= i < name.len() ==> name[i] != '}',
        name[0] != '$',
        scope.contains_key(name),
    ensures
        render(variable_placeholder(name), scope, env, fresh) == scope[name],
{
    if dynamic_token(name) is Some {
        lemma_reserved_names_begin_with_dollar(name);
    }
    lemma_render_placeholder(name, scope, env, fresh);
}

/// A reserved name begins with `$`.
pub proof fn lemma_reserved_names_begin_with_dollar(name: Seq<char>)
    requires
        dynamic_token(name) is Some,
    ensures
        name.len() > 0,
        name[0] == '$',
{
    reveal_strlit("$uuid");
    reveal_strlit("$timestamp");
    reveal_strlit("$random");
    reveal_strlit("$date");
    reveal_strlit("$datetime");
}

/// Where what a text renders as holds no placeholder, rendering that again
/// changes nothing.
pub proof fn lemma_render_again(
    s: Seq<char>,
    scope: Map<Seq<char>, Seq<char>>,
    env: Map<Seq<char>, Seq<char>>,
    fresh: Seq<Seq<char>>,
    fresh_again: Seq<Seq<char>>,
)
    requires
        has_no_placeholder(render(s, scope, env, fresh)),
    ensures
        render(render(s, scope, env, fresh), scope, env, fresh_again) == render(
            s,
            scope,
            env,
            fresh,
        ),
{
    lemma_render_identity(render(s, scope, env, fresh), scope, env, fresh_again);
}

/// Behind `from`, a text without reserved names renders the same whatever
/// the fresh values are.
proof fn lemma_render_from_ignores_fresh(
    s: Seq<char>,
    from: int,
    scope: Map<Seq<char>, Seq<char>>,
    env: Map<Seq<char>, Seq<char>>,
    fresh: Seq<Seq<char>>,
    used: nat,
    other: Seq<Seq<char>>,
    other_used: nat,
)
    requires
        dynamic_tokens_from(s, from).len() == 0,
    ensures
        render_from(s, from, scope, env, fresh, used) == render_from(
            s,
            from,
            scope,
            env,
            other,
            other_used,
        ),
    decreases s.len() - from,
{
    if 0 <= from < s.len() {
        match placeholder_at(s, from, variable_open(), variable_close()) {
            Some(p) => {
                lemma_placeholder_at(s, from, variable_open(), variable_close());
                lemma_render_from_ignores_fresh(
                    s,
                    p.end,
                    scope,
                    env,
                    fresh,
                    used,
                    other,
                    other_used,
                );
            },
            None => {
                lemma_render_from_ignores_fresh(
                    s,
                    from + 1,
                    scope,
                    env,
                    fresh,
                    used,
                    other,
                    other_used,
                );
            },
        }
    }
}

/// A text in which no reserved name occurs renders the same whatever the
/// fresh values are.
pub proof fn lemma_render_ignores_fresh(
    s: Seq<char>,
    scope: Map<Seq<char>, Seq<char>>,
    env: Map<Seq<char>, Seq<char>>,
    fresh: Seq<Seq<char>>,
    other: Seq<Seq<char>>,
)
    requires
        dynamic_tokens(s).len() == 0,
    ensures
        render(s, scope, env, fresh) == render(s, scope, env, other),
{
    lemma_render_from_ignores_fresh(s, 0, scope, env, fresh, 0, other, 0);
}

} // verus!
