//! Captures: values of a response that are stored in the scope for the
//! requests that follow.

use vstd::prelude::*;
use crate::http::{Response, ResponseModel};
use crate::json::{
    json_parse, json_text, json_value_to_string, lemma_array_view, JsonModel, JsonValue,
};
use crate::parser::{ReqxFile, ScriptModel};
use crate::path::{extract_json_path, query};
use crate::runtime::{ExecutionContext, RuntimeError};
use crate::template::{lemma_render_variable, render, variable_placeholder};
use crate::text::{
    chars_of, decimal_chars, decimal_text, find_chars, first_occurrence, has_prefix,
    lemma_first_occurrence_from, lemma_trim_len, same_text, slice_chars, starts_with, string_of,
    trim, trim_chars,
};

verus! {
/// The mark between a capture expression and the function that its value
/// is piped through.
pub open spec fn pipe_mark() -> Seq<char> {
    seq![' ', '|', ' ']
}

/// The two parts of a piped expression, each without the white space
/// around it: what stands before the mark and what stands behind it. An
/// expression in which the mark does not occur, or occurs again behind its
/// first occurrence, has no such parts.
pub open spec fn pipe_parts(expression: Seq<char>) -> Option<(Seq<char>, Seq<char>)> {
    match first_occurrence(expression, pipe_mark()) {
        Some(at) => {
            let rest = expression.skip(at + pipe_mark().len());
            if first_occurrence(rest, pipe_mark()) is None {
                Some((trim(expression.take(at)), trim(rest)))
            } else {
                None
            }
        },
        None => None,
    }
}

/// The first part of a piped expression is shorter than the expression.
pub proof fn lemma_pipe_parts_shorter(expression: Seq<char>)
    requires
        pipe_parts(expression) is Some,
    ensures
        ({
            let parts = pipe_parts(expression)->0;
            parts.0.len() < expression.len()
        }),
{
    lemma_first_occurrence_from(expression, pipe_mark(), 0);
    let at = first_occurrence(expression, pipe_mark())->0;
    lemma_trim_len(expression.take(at));
}

/// What a function makes of a value. `length` counts the items of a JSON
/// array, the characters of a JSON string, and the characters of any other
/// text. `first` and `last` give the first and the last item
/// of a JSON array as text, and the empty text of anything else. A function
/// of another name gives the value back.
pub open spec fn apply_pipe(function: Seq<char>, value: Seq<char>) -> Seq<char> {
    if function == "length"@ {
        match json_parse(value) {
            Some(JsonModel::Array(items)) => decimal_text(items.len()),
            Some(JsonModel::String(text)) => decimal_text(text.len()),
            _ => decimal_text(value.len()),
        }
    } else if function == "first"@ {
        match json_parse(value) {
            Some(JsonModel::Array(items)) => if items.len() > 0 {
                json_text(items.first())
            } else {
                Seq::empty()
            },
            _ => Seq::empty(),
        }
    } else if function == "last"@ {
        match json_parse(value) {
            Some(JsonModel::Array(items)) => if items.len() > 0 {
                json_text(items.last())
            } else {
                Seq::empty()
            },
            _ => Seq::empty(),
        }
    } else {
        value
    }
}

/// The value of a capture expression. An expression that begins with
/// `res.body` is read as a path into the body, and has the text of what the
/// path finds. `res.status` has the status in decimal. An expression that
/// begins with `res.headers.` has the value of the header of that name. An
/// expression that has none of these values and is piped has what the
/// function makes of the value of its first part. Any other expression has
/// the empty text.
pub open spec fn capture_value(expression: Seq<char>, response: ResponseModel) -> Seq<char>
    decreases expression.len(),
{
    let path = expression.skip("res.body"@.len() as int);
    let header = expression.skip("res.headers."@.len() as int);
    if starts_with(expression, "res.body"@) && query(response.body, path) is Some {
        json_text(query(response.body, path)->0)
    } else if expression == "res.status"@ {
        decimal_text(response.status as nat)
    } else if starts_with(expression, "res.headers."@) && response.headers.contains_key(header) {
        response.headers[header]
    } else {
        match pipe_parts(expression) {
            Some(parts) => {
                proof {
                    lemma_pipe_parts_shorter(expression);
                }
                apply_pipe(parts.1, capture_value(parts.0, response))
            },
            None => Seq::empty(),
        }
    }
}

/// A scope after the first `count` capture scripts have run against a
/// response: each stores the value of its expression under its variable.
pub open spec fn captured_scope(
    scope: Map<Seq<char>, Seq<char>>,
    scripts: Seq<ScriptModel>,
    response: ResponseModel,
    count: int,
) -> Map<Seq<char>, Seq<char>>
    decreases count,
{
    if count <= 0 {
        scope
    } else {
        captured_scope(scope, scripts, response, count - 1).insert(
            scripts[count - 1].variable,
            capture_value(scripts[count - 1].expression, response),
        )
    }
}

/// A scope after all capture scripts have run against a response.
pub open spec fn scope_after_captures(
    scope: Map<Seq<char>, Seq<char>>,
    scripts: Seq<ScriptModel>,
    response: ResponseModel,
) -> Map<Seq<char>, Seq<char>> {
    captured_scope(scope, scripts, response, scripts.len() as int)
}

impl ExecutionContext {
    /// Runs the capture scripts of a descriptor against a response, in
    /// order: each stores the value of its expression in the scope, under
    /// its variable, where the requests that follow see it.
    pub fn run_post_response(&mut self, reqx_file: &ReqxFile, response: &Response) -> (r: Result<
        (),
        RuntimeError,
    >)
        ensures
            r is Ok,
            final(self).variables@ == scope_after_captures(
                old(self).variables@,
                reqx_file@.post_response,
                response@,
            ),
            final(self).environment == old(self).environment,
            final(self).config == old(self).config,
    {
        let n = reqx_file.post_response.len();
        let mut i: usize = 0;
        while i < n
            invariant
                i <= n,
                n == reqx_file.post_response@.len(),
                self.variables@ == captured_scope(
                    old(self).variables@,
                    reqx_file@.post_response,
                    response@,
                    i as int,
                ),
                self.environment == old(self).environment,
                self.config == old(self).config,
            decreases n - i,
        {
            let script = &reqx_file.post_response[i];
            let value = self.evaluate_expression(script.expression.as_str(), response);
            self.variables.insert(script.variable.clone(), value);
            i += 1;
        }
        Ok(())
    }

    /// The value of a capture expression against a response.
    pub fn evaluate_expression(&self, expression: &str, response: &Response) -> (r: String)
        ensures
            r@ == capture_value(expression@, response@),
        decreases expression@.len(),
    {
        let e = chars_of(expression);
        if has_prefix(&e, "res.body") {
            let skip = chars_of("res.body").len();
            let path = string_of(&slice_chars(&e, skip, e.len()));
            match extract_json_path(&response.body, path.as_str()) {
                Some(value) => {
                    return json_value_to_string(value);
                },
                None => {},
            }
        }
        if same_text(expression, "res.status") {
            return string_of(&decimal_chars(response.status as u64));
        }
        if has_prefix(&e, "res.headers.") {
            let skip = chars_of("res.headers.").len();
            let header = string_of(&slice_chars(&e, skip, e.len()));
            match response.headers.get(header.as_str()) {
                Some(value) => {
                    return value.clone();
                },
                None => {},
            }
        }
        let mark = vec![' ', '|', ' '];
        match find_chars(&e, &mark) {
            Some(at) => {
                assert(at + mark@.len() <= e@.len() == e.len());
                let rest = slice_chars(&e, at + mark.len(), e.len());
                if find_chars(&rest, &mark).is_none() {
                    let head = slice_chars(&e, 0, at);
                    let base = string_of(&trim_chars(&head));
                    let function = string_of(&trim_chars(&rest));
                    proof {
                        lemma_pipe_parts_shorter(expression@);
                    }
                    let value = self.evaluate_expression(base.as_str(), response);
                    return self.apply_function(function.as_str(), value.as_str());
                }
            },
            None => {},
        }
        String::new()
    }

    /// What a function makes of a value.
    pub fn apply_function(&self, func: &str, value: &str) -> (r: String)
        ensures
            r@ == apply_pipe(func@, value@),
    {
        if same_text(func, "length") {
            match JsonValue::parse(value) {
                Some(JsonValue::Array(items)) => {
                    proof {
                        lemma_array_view(items);
                    }
                    string_of(&decimal_chars(items.len() as u64))
                },
                Some(JsonValue::String(text)) => {
                    string_of(&decimal_chars(text.as_str().unicode_len() as u64))
                },
                _ => string_of(&decimal_chars(value.unicode_len() as u64)),
            }
        } else if same_text(func, "first") {
            match JsonValue::parse(value) {
                Some(JsonValue::Array(items)) => {
                    proof {
                        lemma_array_view(items);
                    }
                    if items.len() > 0 {
                        json_value_to_string(&items[0])
                    } else {
                        String::new()
                    }
                },
                _ => String::new(),
            }
        } else if same_text(func, "last") {
            match JsonValue::parse(value) {
                Some(JsonValue::Array(items)) => {
                    proof {
                        lemma_array_view(items);
                    }
                    if items.len() > 0 {
                        json_value_to_string(&items[items.len() - 1])
                    } else {
                        String::new()
                    }
                },
                _ => String::new(),
            }
        } else {
            value.to_owned()
        }
    }
}

/// A value that a capture script has stored is what a placeholder with the
/// script's variable renders as afterwards: for a variable of at least one
/// character, none of them `}`, that does not begin with `$`.
pub proof fn lemma_capture_feeds_interpolation(
    scope: Map<Seq<char>, Seq<char>>,
    script: ScriptModel,
    response: ResponseModel,
    env: Map<Seq<char>, Seq<char>>,
    fresh: Seq<Seq<char>>,
)
    requires
        script.variable.len() > 0,
        forall|i: int| 0 <= i < script.variable.len() ==> script.variable[i] != '}',
        script.variable[0] != '$',
    ensures
        render(
            variable_placeholder(script.variable),
            scope_after_captures(scope, seq![script], response),
            env,
            fresh,
        ) == capture_value(script.expression, response),
{
    let after = scope_after_captures(scope, seq![script], response);
    lemma_render_variable(script.variable, after, env, fresh);
}

/// A placeholder whose name neither the scope nor the environment holds
/// renders as the empty text: for a name of at least one character, none of
/// them `}`, that does not begin with `$`.
pub proof fn lemma_unknown_variable_renders_empty(
    name: Seq<char>,
    scope: Map<Seq<char>, Seq<char>>,
    env: Map<Seq<char>, Seq<char>>,
    fresh: Seq<Seq<char>>,
)
    requires
        name.len() > 0,
        forall|i: int| 0 <= i < name.len() ==> name[i] != '}',
        name[0] != '$',
        !scope.contains_key(name),
        !env.contains_key(name),
    ensures
        render(variable_placeholder(name), scope, env, fresh) == Seq::<char>::empty(),
{
    if crate::template::dynamic_token(name) is Some {
        crate::template::lemma_reserved_names_begin_with_dollar(name);
    }
    crate::template::lemma_render_placeholder(name, scope, env, fresh);
}

} // verus!
