//! Texts put together from parts: what a text renders as when it is a
//! chain of plain texts and placeholders.

use vstd::prelude::*;
use crate::checks::uuid_syntax;
use crate::dynamic::{are_fresh_values, is_hyphenated_uuid};
use crate::runtime::interpolate::is_rendering;
use crate::template::{
    dynamic_token, dynamic_tokens, dynamic_tokens_from, fresh_at, has_no_placeholder,
    lemma_name_end, lemma_name_end_at, lemma_no_brace_no_placeholder, lemma_placeholder_at,
    lemma_render_identity, lemma_reserved_names_begin_with_dollar, name_end, placeholder_at,
    placeholder_name, render, render_from, resolve_name, variable_close, variable_open,
    variable_placeholder, DynamicToken, PlaceholderSpan,
};
use crate::text::occurs_at;

verus! {

/// A part of a text: a plain text, or a placeholder with a name.
pub ghost enum Part {
    Text(Seq<char>),
    Placeholder(Seq<char>),
}

/// The text of a part.
pub open spec fn part_text(part: Part) -> Seq<char> {
    match part {
        Part::Text(text) => text,
        Part::Placeholder(name) => variable_placeholder(name),
    }
}

/// The text that a chain of parts makes.
pub open spec fn chain_text(parts: Seq<Part>) -> Seq<char>
    decreases parts.len(),
{
    if parts.len() == 0 {
        Seq::empty()
    } else {
        part_text(parts[0]) + chain_text(parts.drop_first())
    }
}

/// Whether a part is well formed: a plain text holds no `{`, and the name
/// of a placeholder has at least one character and holds no `}`.
pub open spec fn is_part(part: Part) -> bool {
    match part {
        Part::Text(text) => forall|i: int| 0 <= i < text.len() ==> text[i] != '{',
        Part::Placeholder(name) => name.len() > 0 && forall|i: int|
            0 <= i < name.len() ==> name[i] != '}',
    }
}

/// Whether every part of a chain is well formed.
pub open spec fn are_parts(parts: Seq<Part>) -> bool {
    forall|i: int| 0 <= i < parts.len() ==> is_part(#[trigger] parts[i])
}

/// What a chain of parts renders as: a plain text as itself, a placeholder
/// with a reserved name as the fresh value of its occurrence, counted from
/// `used`, and any other placeholder as what its name stands for.
pub open spec fn chain_rendering(
    parts: Seq<Part>,
    scope: Map<Seq<char>, Seq<char>>,
    env: Map<Seq<char>, Seq<char>>,
    fresh: Seq<Seq<char>>,
    used: nat,
) -> Seq<char>
    decreases parts.len(),
{
    if parts.len() == 0 {
        Seq::empty()
    } else {
        match parts[0] {
            Part::Text(text) => text + chain_rendering(parts.drop_first(), scope, env, fresh, used),
            Part::Placeholder(name) => if dynamic_token(name) is Some {
                fresh_at(fresh, used) + chain_rendering(
                    parts.drop_first(),
                    scope,
                    env,
                    fresh,
                    used + 1,
                )
            } else {
                resolve_name(name, scope, env) + chain_rendering(
                    parts.drop_first(),
                    scope,
                    env,
                    fresh,
                    used,
                )
            },
        }
    }
}

/// The reserved names among the placeholders of a chain, in order.
pub open spec fn chain_tokens(parts: Seq<Part>) -> Seq<DynamicToken>
    decreases parts.len(),
{
    if parts.len() == 0 {
        Seq::empty()
    } else {
        match parts[0] {
            Part::Placeholder(name) => match dynamic_token(name) {
                Some(token) => seq![token] + chain_tokens(parts.drop_first()),
                None => chain_tokens(parts.drop_first()),
            },
            Part::Text(_) => chain_tokens(parts.drop_first()),
        }
    }
}

/// A pattern occurs behind a prefix where it occurs in what follows the
/// prefix.
proof fn lemma_occurs_behind(before: Seq<char>, s: Seq<char>, pattern: Seq<char>, at: int)
    requires
        0 <= at,
    ensures
        occurs_at(before + s, pattern, before.len() + at) == occurs_at(s, pattern, at),
{
    if at + pattern.len() <= s.len() {
        assert((before + s).subrange(before.len() + at, before.len() + at + pattern.len())
            =~= s.subrange(at, at + pattern.len()));
    }
}

/// A name ends behind a prefix where it ends in what follows the prefix.
proof fn lemma_name_end_behind(before: Seq<char>, s: Seq<char>, from: int)
    requires
        0 <= from,
    ensures
        name_end(before + s, before.len() + from) == before.len() + name_end(s, from),
    decreases s.len() - from,
{
    if from < s.len() {
        if s[from] != '}' {
            lemma_name_end_behind(before, s, from + 1);
        }
    }
}

/// A placeholder stands behind a prefix where it stands in what follows
/// the prefix, with the same name.
proof fn lemma_placeholder_behind(before: Seq<char>, s: Seq<char>, at: int)
    requires
        0 <= at,
    ensures
        match placeholder_at(s, at, variable_open(), variable_close()) {
            Some(p) => placeholder_at(
                before + s,
                before.len() + at,
                variable_open(),
                variable_close(),
            ) == Some(
                PlaceholderSpan {
                    name_from: before.len() + p.name_from,
                    name_to: before.len() + p.name_to,
                    end: before.len() + p.end,
                },
            ) && placeholder_name(
                before + s,
                PlaceholderSpan {
                    name_from: before.len() + p.name_from,
                    name_to: before.len() + p.name_to,
                    end: before.len() + p.end,
                },
            ) == placeholder_name(s, p),
            None => placeholder_at(
                before + s,
                before.len() + at,
                variable_open(),
                variable_close(),
            ) is None,
        },
{
    let open = variable_open();
    let close = variable_close();
    lemma_occurs_behind(before, s, open, at);
    lemma_name_end_behind(before, s, at + open.len());
    if at + open.len() <= s.len() {
        lemma_name_end(s, at + open.len());
        lemma_occurs_behind(before, s, close, name_end(s, at + open.len()));
    }
    match placeholder_at(s, at, open, close) {
        Some(p) => {},
        None => {},
    }
}

/// What follows a prefix renders behind the prefix as it renders alone.
proof fn lemma_render_behind(
    before: Seq<char>,
    s: Seq<char>,
    from: int,
    scope: Map<Seq<char>, Seq<char>>,
    env: Map<Seq<char>, Seq<char>>,
    fresh: Seq<Seq<char>>,
    used: nat,
)
    requires
        0 <= from,
    ensures
        render_from(before + s, before.len() + from, scope, env, fresh, used) == render_from(
            s,
            from,
            scope,
            env,
            fresh,
            used,
        ),
    decreases s.len() - from,
{
    if from < s.len() {
        lemma_placeholder_behind(before, s, from);
        match placeholder_at(s, from, variable_open(), variable_close()) {
            Some(p) => {
                lemma_placeholder_at(s, from, variable_open(), variable_close());
                lemma_render_behind(before, s, p.end, scope, env, fresh, used);
                lemma_render_behind(before, s, p.end, scope, env, fresh, used + 1);
            },
            None => {
                lemma_render_behind(before, s, from + 1, scope, env, fresh, used);
            },
        }
    }
}

/// What follows a prefix holds behind the prefix the reserved names that
/// it holds alone.
proof fn lemma_tokens_behind(before: Seq<char>, s: Seq<char>, from: int)
    requires
        0 <= from,
    ensures
        dynamic_tokens_from(before + s, before.len() + from) == dynamic_tokens_from(s, from),
    decreases s.len() - from,
{
    if from < s.len() {
        lemma_placeholder_behind(before, s, from);
        match placeholder_at(s, from, variable_open(), variable_close()) {
            Some(p) => {
                lemma_placeholder_at(s, from, variable_open(), variable_close());
                lemma_tokens_behind(before, s, p.end);
            },
            None => {
                lemma_tokens_behind(before, s, from + 1);
            },
        }
    }
}

/// No placeholder begins inside a text without `{` that stands before
/// another text.
proof fn lemma_no_placeholder_in_text(text: Seq<char>, rest: Seq<char>, at: int)
    requires
        forall|i: int| 0 <= i < text.len() ==> text[i] != '{',
        0 <= at < text.len(),
    ensures
        placeholder_at(text + rest, at, variable_open(), variable_close()) is None,
{
    let s = text + rest;
}

/// A text without `{` before another text renders as itself, and what
/// follows it as it renders alone.
proof fn lemma_render_text_first(
    text: Seq<char>,
    rest: Seq<char>,
    at: int,
    scope: Map<Seq<char>, Seq<char>>,
    env: Map<Seq<char>, Seq<char>>,
    fresh: Seq<Seq<char>>,
    used: nat,
)
    requires
        forall|i: int| 0 <= i < text.len() ==> text[i] != '{',
        0 <= at <= text.len(),
    ensures
        render_from(text + rest, at, scope, env, fresh, used) == text.subrange(
            at,
            text.len() as int,
        ) + render_from(rest, 0, scope, env, fresh, used),
        dynamic_tokens_from(text + rest, at) == dynamic_tokens_from(rest, 0),
    decreases text.len() - at,
{
    let s = text + rest;
    if at < text.len() {
        lemma_no_placeholder_in_text(text, rest, at);
        lemma_render_text_first(text, rest, at + 1, scope, env, fresh, used);
    } else {
        lemma_render_behind(text, rest, 0, scope, env, fresh, used);
        lemma_tokens_behind(text, rest, 0);
    }
}

/// A placeholder before another text is found at the beginning, whole and
/// with its name.
proof fn lemma_placeholder_first(name: Seq<char>, rest: Seq<char>)
    requires
        is_part(Part::Placeholder(name)),
    ensures
        placeholder_at(
            variable_placeholder(name) + rest,
            0,
            variable_open(),
            variable_close(),
        ) == Some(
            PlaceholderSpan {
                name_from: 2,
                name_to: 2 + name.len() as int,
                end: variable_placeholder(name).len() as int,
            },
        ),
        (variable_placeholder(name) + rest).subrange(2, 2 + name.len() as int) == name,
        variable_placeholder(name).len() == name.len() + 4,
{
    let s = variable_placeholder(name) + rest;
    let stop = 2 + name.len() as int;
    assert(s.subrange(0, 2) =~= variable_open());
    assert(s.subrange(stop, stop + 2) =~= variable_close());
    assert forall|k: int| 2 <= k < stop implies s[k] != '}' by {}
    lemma_name_end_at(s, 2, stop);
}

/// The text of a chain of well-formed parts renders part by part, and
/// holds the reserved names of its placeholders.
pub proof fn lemma_chain_renders(
    parts: Seq<Part>,
    scope: Map<Seq<char>, Seq<char>>,
    env: Map<Seq<char>, Seq<char>>,
    fresh: Seq<Seq<char>>,
    used: nat,
)
    requires
        are_parts(parts),
    ensures
        render_from(chain_text(parts), 0, scope, env, fresh, used) == chain_rendering(
            parts,
            scope,
            env,
            fresh,
            used,
        ),
        dynamic_tokens(chain_text(parts)) == chain_tokens(parts),
    decreases parts.len(),
{
    if parts.len() > 0 {
        let rest_parts = parts.drop_first();
        let rest = chain_text(rest_parts);
        assert(are_parts(rest_parts)) by {
            assert forall|i: int| 0 <= i < rest_parts.len() implies is_part(
                #[trigger] rest_parts[i],
            ) by {}
        }
        match parts[0] {
            Part::Text(text) => {
                lemma_chain_renders(rest_parts, scope, env, fresh, used);
                lemma_render_text_first(text, rest, 0, scope, env, fresh, used);
            },
            Part::Placeholder(name) => {
                let head = variable_placeholder(name);
                lemma_placeholder_first(name, rest);
                lemma_render_behind(head, rest, 0, scope, env, fresh, used);
                lemma_render_behind(head, rest, 0, scope, env, fresh, used + 1);
                lemma_tokens_behind(head, rest, 0);
                lemma_chain_renders(rest_parts, scope, env, fresh, used);
                lemma_chain_renders(rest_parts, scope, env, fresh, used + 1);
            },
        }
    }
}

/// Whether a chain holds only plain texts and placeholders for names of
/// the scope that do not begin with `$`, and the scope holds under these
/// names no text with a `{`.
pub open spec fn is_plain_chain(parts: Seq<Part>, scope: Map<Seq<char>, Seq<char>>) -> bool {
    &&& are_parts(parts)
    &&& forall|i: int|
        0 <= i < parts.len() ==> ((#[trigger] parts[i]) matches Part::Placeholder(name) ==> {
            &&& name[0] != '$'
            &&& scope.contains_key(name)
            &&& forall|k: int| 0 <= k < scope[name].len() ==> scope[name][k] != '{'
        })
}

/// What a plain chain renders as holds no `{`.
proof fn lemma_plain_chain_has_no_brace(
    parts: Seq<Part>,
    scope: Map<Seq<char>, Seq<char>>,
    env: Map<Seq<char>, Seq<char>>,
    fresh: Seq<Seq<char>>,
    used: nat,
)
    requires
        is_plain_chain(parts, scope),
    ensures
        forall|i: int|
            0 <= i < chain_rendering(parts, scope, env, fresh, used).len() ==> chain_rendering(
                parts,
                scope,
                env,
                fresh,
                used,
            )[i] != '{',
    decreases parts.len(),
{
    if parts.len() > 0 {
        let rest_parts = parts.drop_first();
        assert(is_plain_chain(rest_parts, scope)) by {
            assert forall|i: int| 0 <= i < rest_parts.len() implies is_part(
                #[trigger] rest_parts[i],
            ) by {}
            assert forall|i: int| 0 <= i < rest_parts.len() implies ((
            #[trigger] rest_parts[i]) matches Part::Placeholder(name) ==> {
                &&& name[0] != '$'
                &&& scope.contains_key(name)
                &&& forall|k: int| 0 <= k < scope[name].len() ==> scope[name][k] != '{'
            }) by {}
        }
        lemma_plain_chain_has_no_brace(rest_parts, scope, env, fresh, used);
        let whole = chain_rendering(parts, scope, env, fresh, used);
        let tail = chain_rendering(rest_parts, scope, env, fresh, used);
        match parts[0] {
            Part::Text(text) => {
                assert forall|i: int| 0 <= i < whole.len() implies whole[i] != '{' by {}
            },
            Part::Placeholder(name) => {
                if dynamic_token(name) is Some {
                    lemma_reserved_names_begin_with_dollar(name);
                }
                assert forall|i: int| 0 <= i < whole.len() implies whole[i] != '{' by {}
            },
        }
    }
}

/// Interpolating a text that is a chain of plain texts and placeholders
/// for names in the scope leaves no placeholder, where the scope holds no
/// `{` under these names; interpolating the result again changes nothing.
pub proof fn lemma_second_pass_changes_nothing(
    parts: Seq<Part>,
    scope: Map<Seq<char>, Seq<char>>,
    env: Map<Seq<char>, Seq<char>>,
    once: Seq<char>,
    twice: Seq<char>,
)
    requires
        is_plain_chain(parts, scope),
        is_rendering(chain_text(parts), scope, env, once),
        is_rendering(once, scope, env, twice),
    ensures
        has_no_placeholder(once),
        twice == once,
{
    let input = chain_text(parts);
    let fresh = choose|fresh: Seq<Seq<char>>|
        are_fresh_values(dynamic_tokens(input), fresh) && once == #[trigger] render(
            input,
            scope,
            env,
            fresh,
        );
    lemma_chain_renders(parts, scope, env, fresh, 0);
    lemma_plain_chain_has_no_brace(parts, scope, env, fresh, 0);
    lemma_no_brace_no_placeholder(once);
    let again = choose|again: Seq<Seq<char>>|
        are_fresh_values(dynamic_tokens(once), again) && twice == #[trigger] render(
            once,
            scope,
            env,
            again,
        );
    lemma_render_identity(once, scope, env, again);
}

/// Two UUID placeholders with a text without `{` between them render as
/// two UUIDs in the hyphenated form, each at its place: the first on the
/// first 36 characters, then the text, then the second.
pub proof fn lemma_two_uuids(
    between: Seq<char>,
    scope: Map<Seq<char>, Seq<char>>,
    env: Map<Seq<char>, Seq<char>>,
    output: Seq<char>,
)
    requires
        forall|i: int| 0 <= i < between.len() ==> between[i] != '{',
        is_rendering(
            variable_placeholder("$uuid"@) + between + variable_placeholder("$uuid"@),
            scope,
            env,
            output,
        ),
    ensures
        output.len() == 72 + between.len(),
        output.subrange(36, 36 + between.len() as int) == between,
        is_hyphenated_uuid(output.subrange(0, 36)),
        uuid_syntax(output.subrange(0, 36)),
        is_hyphenated_uuid(output.subrange(36 + between.len() as int, output.len() as int)),
        uuid_syntax(output.subrange(36 + between.len() as int, output.len() as int)),
{
    reveal_strlit("$uuid");
    let name = "$uuid"@;
    let parts = seq![Part::Placeholder(name), Part::Text(between), Part::Placeholder(name)];
    let input = variable_placeholder(name) + between + variable_placeholder(name);
    assert(are_parts(parts)) by {
        assert forall|i: int| 0 <= i < name.len() implies name[i] != '}' by {}
    }
    assert(chain_text(parts) =~= input) by {
        reveal_with_fuel(chain_text, 4);
    }
    let fresh = choose|fresh: Seq<Seq<char>>|
        are_fresh_values(dynamic_tokens(input), fresh) && output == #[trigger] render(
            input,
            scope,
            env,
            fresh,
        );
    lemma_chain_renders(parts, scope, env, fresh, 0);
    assert(chain_tokens(parts) =~= seq![DynamicToken::Uuid, DynamicToken::Uuid]) by {
        reveal_with_fuel(chain_tokens, 4);
    }
    assert(chain_rendering(parts, scope, env, fresh, 0) =~= fresh[0] + between + fresh[1]) by {
        reveal_with_fuel(chain_rendering, 4);
    }
    assert(output.subrange(0, 36) =~= fresh[0]);
    assert(output.subrange(36 + between.len() as int, output.len() as int) =~= fresh[1]);
}

} // verus!
