//! Export to other API client formats: the documents that a list of
//! descriptors stands for.

use vstd::prelude::*;
use crate::json::{items_view, members_view, push_item, push_member, JsonModel, JsonValue};
use crate::parser::ReqxFile;
use crate::strmap::StringMap;
use crate::text::{
    chars_of, find_chars, first_occurrence, lowercase, lowercase_text, matches_at, occurs_at,
    slice_chars, string_of,
};

verus! {
/// A descriptor to be exported, with the name it is exported under.
pub struct NamedDescriptor<'a> {
    pub name: String,
    pub descriptor: &'a ReqxFile,
}

/// A header in a Postman request: its name under `key`, its text under
/// `value`.
pub open spec fn postman_header(pair: (Seq<char>, Seq<char>)) -> JsonModel {
    JsonModel::Object(
        seq![("key"@, JsonModel::String(pair.0)), ("value"@, JsonModel::String(pair.1))],
    )
}

/// The headers of a Postman request, in the order of the descriptor.
pub open spec fn postman_headers(pairs: Seq<(Seq<char>, Seq<char>)>) -> Seq<JsonModel> {
    Seq::new(pairs.len(), |i: int| postman_header(pairs[i]))
}

/// The item of a Postman collection for a descriptor: its name, and a
/// request with the method, the headers and the URL of the descriptor.
pub open spec fn postman_item(
    name: Seq<char>,
    method: Seq<char>,
    url: Seq<char>,
    headers: Seq<(Seq<char>, Seq<char>)>,
) -> JsonModel {
    JsonModel::Object(
        seq![
            ("name"@, JsonModel::String(name)),
            (
                "request"@,
                JsonModel::Object(
                    seq![
                        ("method"@, JsonModel::String(method)),
                        ("header"@, JsonModel::Array(postman_headers(headers))),
                        ("url"@, JsonModel::Object(seq![("raw"@, JsonModel::String(url))])),
                    ],
                ),
            ),
        ],
    )
}

/// The items of a Postman collection for a list of descriptors, one for
/// each, in order.
pub open spec fn postman_items(descriptors: Seq<NamedDescriptor>) -> Seq<JsonModel> {
    Seq::new(
        descriptors.len(),
        |i: int|
            postman_item(
                descriptors[i].name@,
                descriptors[i].descriptor.request.method@,
                descriptors[i].descriptor.request.url@,
                descriptors[i].descriptor.headers.pairs(),
            ),
    )
}

/// A Postman collection of items: what the collection is, and the items.
pub open spec fn postman_collection(items: Seq<JsonModel>) -> JsonModel {
    JsonModel::Object(
        seq![
            (
                "info"@,
                JsonModel::Object(
                    seq![
                        ("name"@, JsonModel::String("Exported from reqx"@)),
                        (
                            "schema"@,
                            JsonModel::String(
                                "https://schema.getpostman.com/json/collection/v2.1.0/collection.json"@,
                            ),
                        ),
                    ],
                ),
            ),
            ("item"@, JsonModel::Array(items)),
        ],
    )
}

/// The headers of a Postman request.
fn export_headers(headers: &StringMap) -> (r: JsonValue)
    ensures
        r@ == JsonModel::Array(postman_headers(headers.pairs())),
{
    let n = headers.len();
    let mut items: Vec<JsonValue> = Vec::new();
    let mut i: usize = 0;
    while i < n
        invariant
            i <= n,
            n == headers.pairs().len(),
            items_view(items@) == postman_headers(headers.pairs()).take(i as int),
        decreases n - i,
    {
        let mut members: Vec<(String, JsonValue)> = Vec::new();
        push_member(&mut members, "key", JsonValue::text(headers.name_at(i).as_str()));
        push_member(&mut members, "value", JsonValue::text(headers.text_at(i).as_str()));
        let header = JsonValue::object(members);
        assert(header@ == postman_header(headers.pairs()[i as int])) by {
            assert(header@->Object_0 =~= seq![
                ("key"@, JsonModel::String(headers.pairs()[i as int].0)),
                ("value"@, JsonModel::String(headers.pairs()[i as int].1)),
            ]);
        }
        push_item(&mut items, header);
        i += 1;
    }
    assert(postman_headers(headers.pairs()).take(n as int) =~= postman_headers(headers.pairs()));
    JsonValue::array(items)
}

/// The item of a Postman collection for a descriptor.
pub fn export_postman_item(name: &str, descriptor: &ReqxFile) -> (r: JsonValue)
    ensures
        r@ == postman_item(
            name@,
            descriptor.request.method@,
            descriptor.request.url@,
            descriptor.headers.pairs(),
        ),
{
    let mut raw: Vec<(String, JsonValue)> = Vec::new();
    assert(members_view(raw@) =~= Seq::<(Seq<char>, JsonModel)>::empty());
    push_member(&mut raw, "raw", JsonValue::text(descriptor.request.url.as_str()));
    let url = JsonValue::object(raw);

    let mut request: Vec<(String, JsonValue)> = Vec::new();
    push_member(&mut request, "method", JsonValue::text(descriptor.request.method.as_str()));
    push_member(&mut request, "header", export_headers(&descriptor.headers));
    push_member(&mut request, "url", url);
    let request = JsonValue::object(request);
    assert(request@->Object_0 =~= seq![
        ("method"@, JsonModel::String(descriptor.request.method@)),
        ("header"@, JsonModel::Array(postman_headers(descriptor.headers.pairs()))),
        ("url"@, JsonModel::Object(seq![("raw"@, JsonModel::String(descriptor.request.url@))])),
    ]);

    let mut item: Vec<(String, JsonValue)> = Vec::new();
    push_member(&mut item, "name", JsonValue::text(name));
    push_member(&mut item, "request", request);
    let item = JsonValue::object(item);
    assert(item@->Object_0 =~= seq![("name"@, JsonModel::String(name@)), ("request"@, request@)]);
    item
}

/// The Postman collection for a list of descriptors.
pub fn export_postman(descriptors: &Vec<NamedDescriptor>) -> (r: JsonValue)
    ensures
        r@ == postman_collection(postman_items(descriptors@)),
{
    let ghost all = postman_items(descriptors@);
    let mut items: Vec<JsonValue> = Vec::new();
    let mut i: usize = 0;
    while i < descriptors.len()
        invariant
            i <= descriptors.len(),
            all == postman_items(descriptors@),
            items_view(items@) == all.take(i as int),
        decreases descriptors.len() - i,
    {
        let item = export_postman_item(descriptors[i].name.as_str(), descriptors[i].descriptor);
        push_item(&mut items, item);
        i += 1;
    }
    assert(all.take(all.len() as int) =~= all);

    let mut info: Vec<(String, JsonValue)> = Vec::new();
    push_member(&mut info, "name", JsonValue::text("Exported from reqx"));
    push_member(
        &mut info,
        "schema",
        JsonValue::text("https://schema.getpostman.com/json/collection/v2.1.0/collection.json"),
    );
    let info = JsonValue::object(info);
    assert(info@->Object_0 =~= seq![
        ("name"@, JsonModel::String("Exported from reqx"@)),
        (
            "schema"@,
            JsonModel::String(
                "https://schema.getpostman.com/json/collection/v2.1.0/collection.json"@,
            ),
        ),
    ]);

    let mut collection: Vec<(String, JsonValue)> = Vec::new();
    push_member(&mut collection, "info", info);
    push_member(&mut collection, "item", JsonValue::array(items));
    let collection = JsonValue::object(collection);
    assert(collection@->Object_0 =~= seq![("info"@, info@), ("item"@, JsonModel::Array(all))]);
    collection
}

/// The mark behind the scheme of a URL.
pub open spec fn scheme_mark() -> Seq<char> {
    seq![':', '/', '/']
}

/// The position of the last occurrence of `pattern` in `s` at or before
/// `upto`, if there is one.
pub open spec fn last_occurrence_upto(s: Seq<char>, pattern: Seq<char>, upto: int) -> Option<int>
    decreases upto + 1,
{
    if upto < 0 {
        None
    } else if occurs_at(s, pattern, upto) {
        Some(upto)
    } else {
        last_occurrence_upto(s, pattern, upto - 1)
    }
}

/// What stands behind the last scheme mark of a URL: the whole URL where
/// it holds none.
pub open spec fn after_scheme(url: Seq<char>) -> Seq<char> {
    match last_occurrence_upto(url, scheme_mark(), url.len() as int) {
        Some(at) => url.skip(at + scheme_mark().len()),
        None => url,
    }
}

/// The path under which a URL is exported: `/` and what stands between
/// the first and the second slash behind the scheme; `/` alone where no
/// slash stands there.
pub open spec fn exported_path(url: Seq<char>) -> Seq<char> {
    let rest = after_scheme(url);
    match first_occurrence(rest, seq!['/']) {
        Some(at) => {
            let tail = rest.skip(at + 1);
            match first_occurrence(tail, seq!['/']) {
                Some(end) => seq!['/'] + tail.take(end),
                None => seq!['/'] + tail,
            }
        },
        None => seq!['/'],
    }
}

/// The path under which a URL is exported.
pub fn export_path(url: &str) -> (r: String)
    ensures
        r@ == exported_path(url@),
{
    let chars = chars_of(url);
    let mark = vec![':', '/', '/'];
    let mut from: usize = 0;
    let mut upto: usize = chars.len();
    loop
        invariant
            upto <= chars.len(),
            chars@ == url@,
            mark@ == scheme_mark(),
            last_occurrence_upto(url@, scheme_mark(), url@.len() as int) == last_occurrence_upto(
                url@,
                scheme_mark(),
                upto as int,
            ),
        ensures
            from <= chars.len(),
            chars@.subrange(from as int, chars@.len() as int) == after_scheme(url@),
        decreases upto,
    {
        if matches_at(&chars, &mark, upto) {
            from = upto + mark.len();
            break ;
        }
        if upto == 0 {
            from = 0;
            break ;
        }
        upto -= 1;
    }
    let rest = slice_chars(&chars, from, chars.len());
    let slash = vec!['/'];
    assert(slash@ =~= seq!['/']);
    let mut out: Vec<char> = Vec::new();
    out.push('/');
    match find_chars(&rest, &slash) {
        Some(at) => {
            let tail = slice_chars(&rest, at + 1, rest.len());
            match find_chars(&tail, &slash) {
                Some(end) => {
                    let segment = slice_chars(&tail, 0, end);
                    crate::text::append_chars(&mut out, &segment);
                },
                None => {
                    crate::text::append_chars(&mut out, &tail);
                },
            }
        },
        None => {},
    }
    string_of(&out)
}

/// The position of the first member that has a name.
pub open spec fn first_index_named(members: Seq<(Seq<char>, JsonModel)>, name: Seq<char>) -> Option<
    int,
>
    decreases members.len(),
{
    if members.len() == 0 {
        None
    } else {
        match first_index_named(members.drop_last(), name) {
            Some(i) => Some(i),
            None => if members.last().0 == name {
                Some(members.len() - 1)
            } else {
                None
            },
        }
    }
}

/// The first index is a position of a member that has the name.
pub proof fn lemma_first_index_named(members: Seq<(Seq<char>, JsonModel)>, name: Seq<char>)
    ensures
        match first_index_named(members, name) {
            Some(i) => 0 <= i < members.len() && members[i].0 == name,
            None => forall|j: int| 0 <= j < members.len() ==> members[j].0 != name,
        },
    decreases members.len(),
{
    if members.len() > 0 {
        lemma_first_index_named(members.drop_last(), name);
        if first_index_named(members.drop_last(), name) is None {
            assert forall|j: int| 0 <= j < members.len() implies (members[j].0 != name
                || first_index_named(members, name) is Some) by {
                if j < members.len() - 1 {
                    assert(members.drop_last()[j] == members[j]);
                }
            }
        }
    }
}

/// A list of members with a value put under a name: in the place of the
/// first member of that name, or at the end where there is none.
pub open spec fn put_member(
    members: Seq<(Seq<char>, JsonModel)>,
    name: Seq<char>,
    value: JsonModel,
) -> Seq<(Seq<char>, JsonModel)> {
    match first_index_named(members, name) {
        Some(i) => members.update(i, (name, value)),
        None => members.push((name, value)),
    }
}

/// The operations that a list of paths holds under a path already.
pub open spec fn operations_under(paths: Seq<(Seq<char>, JsonModel)>, path: Seq<char>) -> Seq<
    (Seq<char>, JsonModel),
> {
    match first_index_named(paths, path) {
        Some(i) => match paths[i].1 {
            JsonModel::Object(operations) => operations,
            _ => Seq::empty(),
        },
        None => Seq::empty(),
    }
}

/// A list of paths with an operation put under a path and a method.
pub open spec fn with_operation(
    paths: Seq<(Seq<char>, JsonModel)>,
    path: Seq<char>,
    method: Seq<char>,
    operation: JsonModel,
) -> Seq<(Seq<char>, JsonModel)> {
    put_member(
        paths,
        path,
        JsonModel::Object(put_member(operations_under(paths, path), method, operation)),
    )
}

/// An operation of an OpenAPI document: a summary, and a successful
/// response.
pub open spec fn openapi_operation(summary: Seq<char>) -> JsonModel {
    JsonModel::Object(
        seq![
            ("summary"@, JsonModel::String(summary)),
            (
                "responses"@,
                JsonModel::Object(
                    seq![
                        (
                            "200"@,
                            JsonModel::Object(
                                seq![
                                    ("description"@, JsonModel::String("Successful response"@)),
                                ],
                            ),
                        ),
                    ],
                ),
            ),
        ],
    )
}

/// The paths of an OpenAPI document for the first `count` descriptors:
/// each descriptor is an operation under the path of its URL and under its
/// method in lower case, with its name as the summary; a later descriptor
/// takes the place of an earlier one under the same path and method.
pub open spec fn openapi_paths(descriptors: Seq<NamedDescriptor>, count: int) -> Seq<
    (Seq<char>, JsonModel),
>
    decreases count,
{
    if count <= 0 {
        Seq::empty()
    } else {
        with_operation(
            openapi_paths(descriptors, count - 1),
            exported_path(descriptors[count - 1].descriptor.request.url@),
            lowercase_text(descriptors[count - 1].descriptor.request.method@),
            openapi_operation(descriptors[count - 1].name@),
        )
    }
}

/// An OpenAPI document with the given paths.
pub open spec fn openapi_document(paths: Seq<(Seq<char>, JsonModel)>) -> JsonModel {
    JsonModel::Object(
        seq![
            ("openapi"@, JsonModel::String("3.0.0"@)),
            (
                "info"@,
                JsonModel::Object(
                    seq![
                        ("title"@, JsonModel::String("Exported from reqx"@)),
                        ("version"@, JsonModel::String("1.0.0"@)),
                    ],
                ),
            ),
            (
                "servers"@,
                JsonModel::Array(
                    seq![JsonModel::Object(seq![("url"@, JsonModel::String("{{base_url}}"@))])],
                ),
            ),
            ("paths"@, JsonModel::Object(paths)),
        ],
    )
}

/// The position of the first member that has `name`.
fn position_named(members: &Vec<(String, JsonValue)>, name: &str) -> (r: Option<usize>)
    ensures
        match r {
            Some(i) => first_index_named(members_view(members@), name@) == Some(i as int) && i
                < members@.len(),
            None => first_index_named(members_view(members@), name@) is None,
        },
{
    let wanted = name.to_owned();
    let ghost all = members_view(members@);
    let mut i: usize = 0;
    while i < members.len()
        invariant
            i <= members.len(),
            wanted@ == name@,
            all == members_view(members@),
            first_index_named(all.take(i as int), name@) is None,
        decreases members.len() - i,
    {
        assert(all.take(i + 1).drop_last() == all.take(i as int));
        if members[i].0 == wanted {
            proof {
                lemma_first_index_prefix(all, i + 1, name@);
            }
            return Some(i);
        }
        i += 1;
    }
    assert(all.take(all.len() as int) == all);
    None
}

/// The first index in a prefix is the first index in the whole list.
proof fn lemma_first_index_prefix(members: Seq<(Seq<char>, JsonModel)>, len: int, name: Seq<char>)
    requires
        0 <= len <= members.len(),
        first_index_named(members.take(len), name) is Some,
    ensures
        first_index_named(members, name) == first_index_named(members.take(len), name),
    decreases members.len() - len,
{
    if len < members.len() {
        assert(members.take(len + 1).drop_last() == members.take(len));
        lemma_first_index_prefix(members, len + 1, name);
    } else {
        assert(members.take(len) == members);
    }
}

/// Puts `value` under `name` in a list of members.
fn put(members: &mut Vec<(String, JsonValue)>, name: &str, value: JsonValue)
    ensures
        members_view(final(members)@) == put_member(members_view(old(members)@), name@, value@),
{
    match position_named(members, name) {
        Some(i) => {
            members.set(i, (name.to_owned(), value));
        },
        None => {
            push_member(members, name, value);
        },
    }
}

/// An operation of an OpenAPI document.
fn operation_document(summary: &str) -> (r: JsonValue)
    ensures
        r@ == openapi_operation(summary@),
{
    let mut ok: Vec<(String, JsonValue)> = Vec::new();
    assert(members_view(ok@) =~= Seq::<(Seq<char>, JsonModel)>::empty());
    push_member(&mut ok, "description", JsonValue::text("Successful response"));
    let ok = JsonValue::object(ok);
    let mut responses: Vec<(String, JsonValue)> = Vec::new();
    push_member(&mut responses, "200", ok);
    let responses = JsonValue::object(responses);
    let mut operation: Vec<(String, JsonValue)> = Vec::new();
    push_member(&mut operation, "summary", JsonValue::text(summary));
    push_member(&mut operation, "responses", responses);
    let operation = JsonValue::object(operation);
    assert(operation@->Object_0 =~= seq![
        ("summary"@, JsonModel::String(summary@)),
        ("responses"@, responses@),
    ]);
    operation
}

/// Puts an operation under a path and a method in a list of paths.
fn add_operation(paths: &mut Vec<(String, JsonValue)>, path: &str, method: &str, operation: JsonValue)
    ensures
        members_view(final(paths)@) == with_operation(
            members_view(old(paths)@),
            path@,
            method@,
            operation@,
        ),
{
    match position_named(paths, path) {
        Some(i) => {
            let held = paths.remove(i);
            let mut operations = match held.1 {
                JsonValue::Object(operations) => {
                    proof {
                        crate::json::lemma_object_view(operations);
                    }
                    operations
                },
                _ => {
                    let none: Vec<(String, JsonValue)> = Vec::new();
                    assert(members_view(none@) =~= Seq::<(Seq<char>, JsonModel)>::empty());
                    none
                },
            };
            put(&mut operations, method, operation);
            let item = JsonValue::object(operations);
            paths.insert(i, (path.to_owned(), item));
        },
        None => {
            let mut operations: Vec<(String, JsonValue)> = Vec::new();
            assert(members_view(operations@) =~= Seq::<(Seq<char>, JsonModel)>::empty());
            put(&mut operations, method, operation);
            let item = JsonValue::object(operations);
            push_member(paths, path, item);
        },
    }
}

/// The paths of the OpenAPI document for a list of descriptors.
pub fn export_openapi_paths(descriptors: &Vec<NamedDescriptor>) -> (r: Vec<(String, JsonValue)>)
    ensures
        members_view(r@) == openapi_paths(descriptors@, descriptors@.len() as int),
{
    let mut paths: Vec<(String, JsonValue)> = Vec::new();
    let mut i: usize = 0;
    while i < descriptors.len()
        invariant
            i <= descriptors.len(),
            members_view(paths@) == openapi_paths(descriptors@, i as int),
        decreases descriptors.len() - i,
    {
        let descriptor = descriptors[i].descriptor;
        let path = export_path(descriptor.request.url.as_str());
        let method = lowercase(descriptor.request.method.as_str());
        let operation = operation_document(descriptors[i].name.as_str());
        add_operation(&mut paths, path.as_str(), method.as_str(), operation);
        i += 1;
    }
    paths
}

/// The OpenAPI document for a list of descriptors.
pub fn export_openapi(descriptors: &Vec<NamedDescriptor>) -> (r: JsonValue)
    ensures
        r@ == openapi_document(openapi_paths(descriptors@, descriptors@.len() as int)),
{
    let paths = export_openapi_paths(descriptors);
    let ghost listed = members_view(paths@);

    let mut info: Vec<(String, JsonValue)> = Vec::new();
    assert(members_view(info@) =~= Seq::<(Seq<char>, JsonModel)>::empty());
    push_member(&mut info, "title", JsonValue::text("Exported from reqx"));
    push_member(&mut info, "version", JsonValue::text("1.0.0"));
    let info = JsonValue::object(info);
    assert(info@->Object_0 =~= seq![
        ("title"@, JsonModel::String("Exported from reqx"@)),
        ("version"@, JsonModel::String("1.0.0"@)),
    ]);

    let mut server: Vec<(String, JsonValue)> = Vec::new();
    push_member(&mut server, "url", JsonValue::text("{{base_url}}"));
    let server = JsonValue::object(server);
    let mut servers: Vec<JsonValue> = Vec::new();
    assert(items_view(servers@) =~= Seq::<JsonModel>::empty());
    push_item(&mut servers, server);
    let servers = JsonValue::array(servers);

    let mut document: Vec<(String, JsonValue)> = Vec::new();
    push_member(&mut document, "openapi", JsonValue::text("3.0.0"));
    push_member(&mut document, "info", info);
    push_member(&mut document, "servers", servers);
    push_member(&mut document, "paths", JsonValue::object(paths));
    let document = JsonValue::object(document);
    assert(document@->Object_0 =~= seq![
        ("openapi"@, JsonModel::String("3.0.0"@)),
        ("info"@, info@),
        ("servers"@, servers@),
        ("paths"@, JsonModel::Object(listed)),
    ]);
    document
}

} // verus!
