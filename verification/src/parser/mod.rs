//! Request descriptors: one HTTP call with its assertions and its capture
//! scripts.

pub mod ast;
pub mod document;

use vstd::prelude::*;
use crate::json::{import_value, JsonModel, JsonValue};
use crate::parser::document::{
    decode_toml, display_text, find_toml_member, json_form, string_text, table_members,
    toml_display_text, toml_json_form, toml_member_named, toml_members_view, toml_parse,
    toml_tree_of, TomlModel,
};
use crate::strmap::{pairs_map, StringMap};
use crate::text::{uppercase, uppercase_text};

verus! {
/// The request line of a descriptor.
#[derive(Debug)]
pub struct RequestSection {
    pub method: String,
    pub url: String,
}

/// The body of a request: at most one of three forms.
#[derive(Debug)]
pub enum BodySection {
    Json(JsonValue),
    Raw(String),
    FormData(StringMap),
}

/// What a `BodySection` holds.
pub ghost enum BodyModel {
    Json(JsonModel),
    Raw(Seq<char>),
    FormData(Map<Seq<char>, Seq<char>>),
}

impl View for BodySection {
    type V = BodyModel;

    open spec fn view(&self) -> BodyModel {
        match self {
            BodySection::Json(doc) => BodyModel::Json(doc@),
            BodySection::Raw(text) => BodyModel::Raw(text@),
            BodySection::FormData(form) => BodyModel::FormData(form@),
        }
    }
}

/// A declared expectation about a response.
#[derive(Debug)]
pub struct Assertion {
    pub expression: String,
    pub expected: String,
}

/// What an `Assertion` holds.
pub ghost struct AssertionModel {
    pub expression: Seq<char>,
    pub expected: Seq<char>,
}

impl View for Assertion {
    type V = AssertionModel;

    open spec fn view(&self) -> AssertionModel {
        AssertionModel { expression: self.expression@, expected: self.expected@ }
    }
}

impl Clone for Assertion {
    fn clone(&self) -> (r: Self)
        ensures
            r@ == self@,
    {
        Assertion { expression: self.expression.clone(), expected: self.expected.clone() }
    }
}

/// A rule that stores a value of the response under a variable.
#[derive(Debug)]
pub struct PostResponseScript {
    pub variable: String,
    pub expression: String,
}

/// What a `PostResponseScript` holds.
pub ghost struct ScriptModel {
    pub variable: Seq<char>,
    pub expression: Seq<char>,
}

impl View for PostResponseScript {
    type V = ScriptModel;

    open spec fn view(&self) -> ScriptModel {
        ScriptModel { variable: self.variable@, expression: self.expression@ }
    }
}

impl Clone for PostResponseScript {
    fn clone(&self) -> (r: Self)
        ensures
            r@ == self@,
    {
        PostResponseScript { variable: self.variable.clone(), expression: self.expression.clone() }
    }
}

/// A request descriptor.
#[derive(Debug)]
pub struct ReqxFile {
    pub request: RequestSection,
    pub headers: StringMap,
    pub query: StringMap,
    pub body: Option<BodySection>,
    pub assertions: Vec<Assertion>,
    pub post_response: Vec<PostResponseScript>,
}

/// The views of a list of assertions.
pub open spec fn assertions_view(assertions: Seq<Assertion>) -> Seq<AssertionModel> {
    Seq::new(assertions.len(), |i: int| assertions[i]@)
}

/// The views of a list of capture scripts.
pub open spec fn scripts_view(scripts: Seq<PostResponseScript>) -> Seq<ScriptModel> {
    Seq::new(scripts.len(), |i: int| scripts[i]@)
}

/// The view of an optional body.
pub open spec fn body_view(body: Option<BodySection>) -> Option<BodyModel> {
    match body {
        Some(b) => Some(b@),
        None => None,
    }
}

/// What a `ReqxFile` holds.
pub ghost struct DescriptorModel {
    pub method: Seq<char>,
    pub url: Seq<char>,
    pub headers: Map<Seq<char>, Seq<char>>,
    pub query: Map<Seq<char>, Seq<char>>,
    pub body: Option<BodyModel>,
    pub assertions: Seq<AssertionModel>,
    pub post_response: Seq<ScriptModel>,
}

impl View for ReqxFile {
    type V = DescriptorModel;

    open spec fn view(&self) -> DescriptorModel {
        DescriptorModel {
            method: self.request.method@,
            url: self.request.url@,
            headers: self.headers@,
            query: self.query@,
            body: body_view(self.body),
            assertions: assertions_view(self.assertions@),
            post_response: scripts_view(self.post_response@),
        }
    }
}

/// A copy of a list of assertions.
pub fn copy_assertions(assertions: &Vec<Assertion>) -> (r: Vec<Assertion>)
    ensures
        assertions_view(r@) == assertions_view(assertions@),
{
    let mut out: Vec<Assertion> = Vec::new();
    let mut i: usize = 0;
    while i < assertions.len()
        invariant
            i <= assertions.len(),
            out@.len() == i,
            forall|j: int| 0 <= j < i ==> (#[trigger] out@[j])@ == assertions@[j]@,
        decreases assertions.len() - i,
    {
        out.push(assertions[i].clone());
        i += 1;
    }
    out
}

/// A copy of a list of capture scripts.
pub fn copy_scripts(scripts: &Vec<PostResponseScript>) -> (r: Vec<PostResponseScript>)
    ensures
        scripts_view(r@) == scripts_view(scripts@),
{
    let mut out: Vec<PostResponseScript> = Vec::new();
    let mut i: usize = 0;
    while i < scripts.len()
        invariant
            i <= scripts.len(),
            out@.len() == i,
            forall|j: int| 0 <= j < i ==> (#[trigger] out@[j])@ == scripts@[j]@,
        decreases scripts.len() - i,
    {
        out.push(scripts[i].clone());
        i += 1;
    }
    out
}

/// Why a text is no descriptor.
#[derive(Debug, Clone, Copy, PartialEq, Eq, Structural)]
pub enum ParseError {
    /// The text is not TOML.
    InvalidToml,
    /// The document is no table.
    NotATable,
    /// The document has no `[request]` table.
    MissingRequest,
    /// The request names no method.
    MissingMethod,
    /// The request names no URL.
    MissingUrl,
}

impl ParseError {
    /// The message of the error.
    pub fn message(&self) -> (r: &'static str)
        ensures
            r@ == (match *self {
                ParseError::InvalidToml => "Failed to parse TOML"@,
                ParseError::NotATable => "Invalid .reqx format: expected TOML table"@,
                ParseError::MissingRequest => "Missing [request] section"@,
                ParseError::MissingMethod => "Missing 'method' in [request]"@,
                ParseError::MissingUrl => "Missing 'url' in [request]"@,
            }),
    {
        match self {
            ParseError::InvalidToml => "Failed to parse TOML",
            ParseError::NotATable => "Invalid .reqx format: expected TOML table",
            ParseError::MissingRequest => "Missing [request] section",
            ParseError::MissingMethod => "Missing 'method' in [request]",
            ParseError::MissingUrl => "Missing 'url' in [request]",
        }
    }
}

/// The table under a name; none where there is no member of that name or
/// the member is no table.
pub open spec fn table_under(members: Seq<(Seq<char>, TomlModel)>, name: Seq<char>) -> Option<
    Seq<(Seq<char>, TomlModel)>,
> {
    match toml_member_named(members, name) {
        Some(TomlModel::Table(table)) => Some(table),
        _ => None,
    }
}

/// The string under a name; none where there is no member of that name or
/// the member is no string.
pub open spec fn text_under(members: Seq<(Seq<char>, TomlModel)>, name: Seq<char>) -> Option<
    Seq<char>,
> {
    match toml_member_named(members, name) {
        Some(TomlModel::String(text)) => Some(text),
        _ => None,
    }
}

/// The members of the table under a name, or none where there is no such
/// table.
pub open spec fn members_under(members: Seq<(Seq<char>, TomlModel)>, name: Seq<char>) -> Seq<
    (Seq<char>, TomlModel),
> {
    match table_under(members, name) {
        Some(table) => table,
        None => Seq::empty(),
    }
}

/// Those of the first `count` members whose value is a string, in order,
/// each as its name and its text.
pub open spec fn string_members(members: Seq<(Seq<char>, TomlModel)>, count: int) -> Seq<
    (Seq<char>, Seq<char>),
>
    decreases count,
{
    if count <= 0 {
        Seq::empty()
    } else {
        match members[count - 1].1 {
            TomlModel::String(text) => string_members(members, count - 1).push(
                (members[count - 1].0, text),
            ),
            _ => string_members(members, count - 1),
        }
    }
}

/// A value as text: the text of a string, and what `toml` writes for any
/// other value.
pub open spec fn value_text(value: TomlModel) -> Seq<char> {
    match value {
        TomlModel::String(text) => text,
        _ => toml_display_text(value),
    }
}

/// The assertions that a table declares: one for each member, in order,
/// with the name as the expression and the value, as text, as what is
/// expected.
pub open spec fn declared_assertions(members: Seq<(Seq<char>, TomlModel)>) -> Seq<AssertionModel> {
    Seq::new(
        members.len(),
        |i: int| AssertionModel { expression: members[i].0, expected: value_text(members[i].1) },
    )
}

/// The capture scripts that a table declares: one for each member, in
/// order, with the name as the variable and the value, as text, as the
/// expression.
pub open spec fn declared_scripts(members: Seq<(Seq<char>, TomlModel)>) -> Seq<ScriptModel> {
    Seq::new(
        members.len(),
        |i: int| ScriptModel { variable: members[i].0, expression: value_text(members[i].1) },
    )
}

/// The body that a value declares: a table is a JSON body, a string is a
/// raw body, and any other value is a raw body of what `toml` writes for
/// it.
pub open spec fn declared_body(value: TomlModel) -> BodyModel {
    match value {
        TomlModel::Table(_) => BodyModel::Json(toml_json_form(value)),
        TomlModel::String(text) => BodyModel::Raw(text),
        _ => BodyModel::Raw(toml_display_text(value)),
    }
}

/// The descriptor that a TOML document declares. The `[request]` table
/// names the method, which is put in upper case, and the URL. The strings of
/// `[headers]` and `[query]` are the headers and the query parameters.
/// `[body]` is the body. Each member of `[assert]` is an assertion, and each
/// member of `[post-response]` a capture script.
pub open spec fn descriptor_of(document: TomlModel) -> Result<DescriptorModel, ParseError> {
    match document {
        TomlModel::Table(top) => match table_under(top, "request"@) {
            None => Err(ParseError::MissingRequest),
            Some(request) => match text_under(request, "method"@) {
                None => Err(ParseError::MissingMethod),
                Some(method) => match text_under(request, "url"@) {
                    None => Err(ParseError::MissingUrl),
                    Some(url) => {
                        let headers = members_under(top, "headers"@);
                        let query = members_under(top, "query"@);
                        Ok(
                            DescriptorModel {
                                method: uppercase_text(method),
                                url,
                                headers: pairs_map(string_members(headers, headers.len() as int)),
                                query: pairs_map(string_members(query, query.len() as int)),
                                body: match toml_member_named(top, "body"@) {
                                    Some(value) => Some(declared_body(value)),
                                    None => None,
                                },
                                assertions: declared_assertions(members_under(top, "assert"@)),
                                post_response: declared_scripts(
                                    members_under(top, "post-response"@),
                                ),
                            },
                        )
                    },
                },
            },
        },
        _ => Err(ParseError::NotATable),
    }
}

/// The descriptor that a text declares; an error where the text is not
/// TOML or the document lacks what a request needs.
pub open spec fn parsed_descriptor(content: Seq<char>) -> Result<DescriptorModel, ParseError> {
    match toml_parse(content) {
        None => Err(ParseError::InvalidToml),
        Some(document) => descriptor_of(document),
    }
}

/// The members of the table under `name`, or none where there is no such
/// table.
fn members_of(top: &Vec<(String, toml::Value)>, name: &str) -> (r: Vec<(String, toml::Value)>)
    ensures
        toml_members_view(r@) == members_under(toml_members_view(top@), name@),
{
    match find_toml_member(top, name) {
        Some(value) => match table_members(value) {
            Some(members) => {
                members
            },
            None => {
                let none: Vec<(String, toml::Value)> = Vec::new();
                none
            },
        },
        None => {
            let none: Vec<(String, toml::Value)> = Vec::new();
            none
        },
    }
}

/// The map of the strings among the members.
fn strings_of(members: &Vec<(String, toml::Value)>) -> (r: StringMap)
    ensures
        r@ == pairs_map(
            string_members(toml_members_view(members@), members@.len() as int),
        ),
        r.well_formed(),
{
    let ghost all = toml_members_view(members@);
    let mut pairs: Vec<(String, String)> = Vec::new();
    let mut i: usize = 0;
    while i < members.len()
        invariant
            i <= members.len(),
            all == toml_members_view(members@),
            Seq::new(pairs@.len(), |k: int| (pairs@[k].0@, pairs@[k].1@)) == string_members(
                all,
                i as int,
            ),
        decreases members.len() - i,
    {
        match string_text(&members[i].1) {
            Some(text) => {
                pairs.push((members[i].0.clone(), text));
            },
            None => {},
        }
        i += 1;
    }
    StringMap::from_pairs(pairs)
}

/// A value as text.
fn text_of(value: &toml::Value) -> (r: String)
    ensures
        r@ == value_text(toml_tree_of(*value)),
{
    match string_text(value) {
        Some(text) => text,
        None => display_text(value),
    }
}

/// Parse .reqx content.
pub fn parse_content(content: &str) -> (r: Result<ReqxFile, ParseError>)
    ensures
        match r {
            Ok(file) => parsed_descriptor(content@) == Ok::<DescriptorModel, ParseError>(file@),
            Err(e) => parsed_descriptor(content@) == Err::<DescriptorModel, ParseError>(e),
        },
{
    let document = match decode_toml(content) {
        Some(document) => document,
        None => {
            return Err(ParseError::InvalidToml);
        },
    };
    let top = match table_members(&document) {
        Some(top) => top,
        None => {
            return Err(ParseError::NotATable);
        },
    };
    let ghost all = toml_members_view(top@);
    assert(toml_tree_of(document) == TomlModel::Table(all));
    let request = match find_toml_member(&top, "request") {
        Some(value) => match table_members(value) {
            Some(request) => {
                request
            },
            None => {
                return Err(ParseError::MissingRequest);
            },
        },
        None => {
            return Err(ParseError::MissingRequest);
        },
    };
    let method = match find_toml_member(&request, "method") {
        Some(value) => match string_text(value) {
            Some(text) => uppercase(text.as_str()),
            None => {
                return Err(ParseError::MissingMethod);
            },
        },
        None => {
            return Err(ParseError::MissingMethod);
        },
    };
    let url = match find_toml_member(&request, "url") {
        Some(value) => match string_text(value) {
            Some(text) => text,
            None => {
                return Err(ParseError::MissingUrl);
            },
        },
        None => {
            return Err(ParseError::MissingUrl);
        },
    };
    let headers = strings_of(&members_of(&top, "headers"));
    let query = strings_of(&members_of(&top, "query"));
    let body = match find_toml_member(&top, "body") {
        Some(value) => {
            if table_members(value).is_some() {
                Some(BodySection::Json(import_value(&json_form(value))))
            } else {
                match string_text(value) {
                    Some(text) => Some(BodySection::Raw(text)),
                    None => Some(BodySection::Raw(display_text(value))),
                }
            }
        },
        None => None,
    };
    let declared = members_of(&top, "assert");
    let mut assertions: Vec<Assertion> = Vec::new();
    let mut i: usize = 0;
    while i < declared.len()
        invariant
            i <= declared.len(),
            assertions@.len() == i,
            forall|k: int|
                0 <= k < i ==> (#[trigger] assertions@[k])@ == declared_assertions(
                    toml_members_view(declared@),
                )[k],
        decreases declared.len() - i,
    {
        assertions.push(
            Assertion { expression: declared[i].0.clone(), expected: text_of(&declared[i].1) },
        );
        i += 1;
    }
    assert(assertions_view(assertions@) =~= declared_assertions(toml_members_view(declared@)));
    let scripted = members_of(&top, "post-response");
    let mut post_response: Vec<PostResponseScript> = Vec::new();
    let mut j: usize = 0;
    while j < scripted.len()
        invariant
            j <= scripted.len(),
            post_response@.len() == j,
            forall|k: int|
                0 <= k < j ==> (#[trigger] post_response@[k])@ == declared_scripts(
                    toml_members_view(scripted@),
                )[k],
        decreases scripted.len() - j,
    {
        post_response.push(
            PostResponseScript {
                variable: scripted[j].0.clone(),
                expression: text_of(&scripted[j].1),
            },
        );
        j += 1;
    }
    assert(scripts_view(post_response@) =~= declared_scripts(toml_members_view(scripted@)));
    Ok(
        ReqxFile {
            request: RequestSection { method, url },
            headers,
            query,
            body,
            assertions,
            post_response,
        },
    )
}

} // verus!
