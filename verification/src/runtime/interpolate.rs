//! Interpolation of texts, of JSON documents and of whole descriptors.

use vstd::prelude::*;
use crate::dynamic::{are_fresh_values, generate, is_fresh_value};
use crate::json::{JsonModel, JsonValue, lemma_array_view, lemma_object_view};
use crate::parser::{
    copy_assertions, copy_scripts, BodyModel, BodySection, DescriptorModel, RequestSection,
    ReqxFile,
};
use crate::runtime::{ExecutionContext, RuntimeError};
use crate::strmap::{pairs_map, StringMap};
use crate::template::{
    dynamic_tokens, has_no_placeholder, lemma_render_identity, lemma_render_variable, render,
    render_template, scan_dynamic_tokens, strings_view, variable_placeholder,
};

verus! {
/// `output` is `input` with each placeholder replaced: one with a reserved
/// name by some fresh value for that name, a value of its own for each
/// occurrence; any other by what its name stands for in the scope and the
/// environment.
pub open spec fn is_rendering(
    input: Seq<char>,
    scope: Map<Seq<char>, Seq<char>>,
    env: Map<Seq<char>, Seq<char>>,
    output: Seq<char>,
) -> bool {
    exists|fresh: Seq<Seq<char>>|
        are_fresh_values(dynamic_tokens(input), fresh) && output == #[trigger] render(
            input,
            scope,
            env,
            fresh,
        )
}

/// `output` is `input` with each string in it rendered: the strings that
/// are items of arrays and values of members, at any depth. Numbers,
/// booleans, null, the names of members and the shape of the document are
/// the same.
pub open spec fn json_is_rendering(
    input: JsonModel,
    scope: Map<Seq<char>, Seq<char>>,
    env: Map<Seq<char>, Seq<char>>,
    output: JsonModel,
) -> bool
    decreases input,
{
    match input {
        JsonModel::String(text) => {
            &&& output is String
            &&& is_rendering(text, scope, env, output->String_0)
        },
        JsonModel::Array(items) => {
            &&& output is Array
            &&& output->Array_0.len() == items.len()
            &&& forall|i: int|
                0 <= i < items.len() ==> json_is_rendering(
                    items[i],
                    scope,
                    env,
                    #[trigger] output->Array_0[i],
                )
        },
        JsonModel::Object(members) => {
            &&& output is Object
            &&& output->Object_0.len() == members.len()
            &&& forall|i: int|
                0 <= i < members.len() ==> (#[trigger] output->Object_0[i]).0 == members[i].0
                    && json_is_rendering(members[i].1, scope, env, output->Object_0[i].1)
        },
        _ => output == input,
    }
}

/// `output` holds the names of `input`, each with its text rendered.
pub open spec fn map_is_rendering(
    input: Map<Seq<char>, Seq<char>>,
    scope: Map<Seq<char>, Seq<char>>,
    env: Map<Seq<char>, Seq<char>>,
    output: Map<Seq<char>, Seq<char>>,
) -> bool {
    &&& output.dom() == input.dom()
    &&& forall|name: Seq<char>|
        input.contains_key(name) ==> is_rendering(input[name], scope, env, #[trigger] output[name])
}

/// `output` is `input` interpolated: the URL, each header, each query
/// parameter and each string of a JSON body are rendered; the method, a raw
/// or form body, the assertions and the capture scripts are the same.
pub open spec fn is_interpolation(
    input: DescriptorModel,
    scope: Map<Seq<char>, Seq<char>>,
    env: Map<Seq<char>, Seq<char>>,
    output: DescriptorModel,
) -> bool {
    &&& output.method == input.method
    &&& is_rendering(input.url, scope, env, output.url)
    &&& map_is_rendering(input.headers, scope, env, output.headers)
    &&& map_is_rendering(input.query, scope, env, output.query)
    &&& match input.body {
        Some(BodyModel::Json(doc)) => {
            &&& output.body is Some
            &&& output.body->0 is Json
            &&& json_is_rendering(doc, scope, env, output.body->0->Json_0)
        },
        _ => output.body == input.body,
    }
    &&& output.assertions == input.assertions
    &&& output.post_response == input.post_response
}

impl ExecutionContext {
    /// `input` with each placeholder replaced. A reserved name gets a fresh
    /// value at each occurrence; any other name stands for what the scope
    /// holds under it, else for what the environment holds, else for the
    /// empty text.
    pub fn interpolate_string(&self, input: &str) -> (r: String)
        ensures
            is_rendering(input@, self.variables@, self.environment@, r@),
    {
        let tokens = scan_dynamic_tokens(input);
        let mut fresh: Vec<String> = Vec::new();
        let mut i: usize = 0;
        while i < tokens.len()
            invariant
                i <= tokens.len(),
                fresh@.len() == i,
                forall|j: int| 0 <= j < i ==> is_fresh_value(tokens@[j], (#[trigger] fresh@[j])@),
            decreases tokens.len() - i,
        {
            fresh.push(generate(tokens[i]));
            i += 1;
        }
        let r = render_template(input, &self.variables, &self.environment, &fresh);
        proof {
            let values = strings_view(fresh@);
            assert forall|j: int| 0 <= j < tokens@.len() implies is_fresh_value(
                tokens@[j],
                #[trigger] values[j],
            ) by {}
        }
        r
    }

    /// `json` with each string in it interpolated.
    pub fn interpolate_json(&self, json: &JsonValue) -> (r: JsonValue)
        ensures
            json_is_rendering(json@, self.variables@, self.environment@, r@),
        decreases json,
    {
        match json {
            JsonValue::String(text) => JsonValue::String(self.interpolate_string(text.as_str())),
            JsonValue::Array(items) => {
                let mut outs: Vec<JsonValue> = Vec::new();
                let mut i: usize = 0;
                while i < items.len()
                    invariant
                        i <= items.len(),
                        *json == JsonValue::Array(*items),
                        outs@.len() == i,
                        forall|j: int|
                            0 <= j < i ==> json_is_rendering(
                                items@[j]@,
                                self.variables@,
                                self.environment@,
                                (#[trigger] outs@[j])@,
                            ),
                    decreases items.len() - i,
                {
                    assert(json->Array_0 == *items);
                    outs.push(self.interpolate_json(&items[i]));
                    i += 1;
                }
                proof {
                    lemma_array_view(*items);
                    lemma_array_view(outs);
                }
                JsonValue::Array(outs)
            },
            JsonValue::Object(members) => {
                let mut outs: Vec<(String, JsonValue)> = Vec::new();
                let mut i: usize = 0;
                while i < members.len()
                    invariant
                        i <= members.len(),
                        *json == JsonValue::Object(*members),
                        outs@.len() == i,
                        forall|j: int|
                            0 <= j < i ==> (#[trigger] outs@[j]).0@ == members@[j].0@
                                && json_is_rendering(
                                members@[j].1@,
                                self.variables@,
                                self.environment@,
                                outs@[j].1@,
                            ),
                    decreases members.len() - i,
                {
                    assert(json->Object_0 == *members);
                    outs.push((members[i].0.clone(), self.interpolate_json(&members[i].1)));
                    i += 1;
                }
                proof {
                    lemma_object_view(*members);
                    lemma_object_view(outs);
                }
                JsonValue::Object(outs)
            },
            JsonValue::Null => JsonValue::Null,
            JsonValue::Bool(b) => JsonValue::Bool(*b),
            JsonValue::Number(n) => JsonValue::Number(n.clone()),
        }
    }

    /// A map with the names of `map`, each with its text interpolated.
    pub fn interpolate_map(&self, map: &StringMap) -> (r: StringMap)
        ensures
            map_is_rendering(map@, self.variables@, self.environment@, r@),
            map.well_formed() ==> r.well_formed(),
    {
        let ghost pairs = map.pairs();
        let n = map.len();
        let mut out = StringMap::new();
        let mut i: usize = 0;
        proof {
            map.lemma_view_of_pairs();
        }
        while i < n
            invariant
                i <= n,
                n == pairs.len(),
                pairs == map.pairs(),
                out.well_formed(),
                map_is_rendering(
                    pairs_map(pairs.take(i as int)),
                    self.variables@,
                    self.environment@,
                    out@,
                ),
            decreases n - i,
        {
            let text = self.interpolate_string(map.text_at(i).as_str());
            out.insert(map.name_at(i).clone(), text);
            proof {
                let next = pairs.take(i + 1);
                assert(next.drop_last() == pairs.take(i as int));
                let now = pairs_map(next);
                assert forall|name: Seq<char>| now.contains_key(name) implies is_rendering(
                    now[name],
                    self.variables@,
                    self.environment@,
                    #[trigger] out@[name],
                ) by {}
            }
            i += 1;
        }
        proof {
            assert(pairs.take(n as int) == pairs);
            map.lemma_view_of_pairs();
        }
        out
    }

    /// The descriptor with its variables interpolated. The result is a new
    /// descriptor; `reqx_file` is left as it was.
    pub fn interpolate(&self, reqx_file: &ReqxFile) -> (r: Result<ReqxFile, RuntimeError>)
        ensures
            r is Ok,
            is_interpolation(reqx_file@, self.variables@, self.environment@, r->Ok_0@),
    {
        let url = self.interpolate_string(reqx_file.request.url.as_str());
        let headers = self.interpolate_map(&reqx_file.headers);
        let query = self.interpolate_map(&reqx_file.query);
        let body = match &reqx_file.body {
            Some(BodySection::Json(doc)) => Some(BodySection::Json(self.interpolate_json(doc))),
            Some(BodySection::Raw(text)) => Some(BodySection::Raw(text.clone())),
            Some(BodySection::FormData(form)) => Some(BodySection::FormData(form.clone())),
            None => None,
        };
        Ok(
            ReqxFile {
                request: RequestSection { method: reqx_file.request.method.clone(), url },
                headers,
                query,
                body,
                assertions: copy_assertions(&reqx_file.assertions),
                post_response: copy_scripts(&reqx_file.post_response),
            },
        )
    }
}

/// Where a text holds no placeholder, its only rendering is the text
/// itself.
pub proof fn lemma_rendering_identity(
    input: Seq<char>,
    scope: Map<Seq<char>, Seq<char>>,
    env: Map<Seq<char>, Seq<char>>,
    output: Seq<char>,
)
    requires
        has_no_placeholder(input),
        is_rendering(input, scope, env, output),
    ensures
        output == input,
{
    let fresh = choose|fresh: Seq<Seq<char>>|
        are_fresh_values(dynamic_tokens(input), fresh) && output == #[trigger] render(
            input,
            scope,
            env,
            fresh,
        );
    lemma_render_identity(input, scope, env, fresh);
}

/// The only rendering of a placeholder whose name is in the scope is the
/// text stored under the name: for a name of at least one character, none
/// of them `}`, that does not begin with `$`.
pub proof fn lemma_rendering_variable(
    name: Seq<char>,
    scope: Map<Seq<char>, Seq<char>>,
    env: Map<Seq<char>, Seq<char>>,
    output: Seq<char>,
)
    requires
        name.len() > 0,
        forall|i: int| 0 <= i < name.len() ==> name[i] != '}',
        name[0] != '$',
        scope.contains_key(name),
        is_rendering(variable_placeholder(name), scope, env, output),
    ensures
        output == scope[name],
{
    let input = variable_placeholder(name);
    let fresh = choose|fresh: Seq<Seq<char>>|
        are_fresh_values(dynamic_tokens(input), fresh) && output == #[trigger] render(
            input,
            scope,
            env,
            fresh,
        );
    lemma_render_variable(name, scope, env, fresh);
}

} // verus!
