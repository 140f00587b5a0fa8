//! Import from other API client formats: what the descriptors are that a
//! Postman collection, an OpenAPI document or a curl command stands for.

use vstd::prelude::*;
use crate::json::{items_view, json_parse, member_of, members_view, JsonModel, JsonValue};
use crate::text::{
    append_chars, chars_of, chars_view, find_chars, first_occurrence, has_prefix,
    is_alphanumeric_char, lowercase, lowercase_text, push_text, replace_char, replaced, same_chars,
    same_text, slice_chars, split_words, starts_with, string_of, strip, strip_chars, strip_start,
    strip_start_chars, trim, trim_chars, unicode_alphanumeric, uppercase, uppercase_text, words,
};

verus! {
/// A descriptor to be written: the name of its file, and its text.
#[derive(Debug, PartialEq)]
pub struct ImportedFile {
    pub file_name: String,
    pub content: String,
}

/// What an `ImportedFile` holds.
pub ghost struct ImportedModel {
    pub file_name: Seq<char>,
    pub content: Seq<char>,
}

impl View for ImportedFile {
    type V = ImportedModel;

    open spec fn view(&self) -> ImportedModel {
        ImportedModel { file_name: self.file_name@, content: self.content@ }
    }
}

/// The views of a list of files.
pub open spec fn files_view(files: Seq<ImportedFile>) -> Seq<ImportedModel> {
    Seq::new(files.len(), |i: int| files[i]@)
}

/// Why nothing could be imported.
#[derive(Debug, Clone, Copy, PartialEq, Eq, Structural)]
pub enum ImportError {
    /// The Postman collection is not JSON.
    CollectionNotJson,
    /// The Postman collection has no list of items.
    CollectionWithoutItems,
    /// The OpenAPI document is not JSON.
    SpecNotJson,
    /// The OpenAPI document has no paths.
    SpecWithoutPaths,
    /// The curl command names no URL.
    CurlWithoutUrl,
}

impl ImportError {
    /// The message of the error.
    pub fn message(&self) -> (r: &'static str)
        ensures
            r@ == (match *self {
                ImportError::CollectionNotJson => "Failed to parse Postman collection"@,
                ImportError::CollectionWithoutItems => "Invalid Postman collection format"@,
                ImportError::SpecNotJson => "Failed to parse OpenAPI spec"@,
                ImportError::SpecWithoutPaths => "Invalid OpenAPI spec: missing paths"@,
                ImportError::CurlWithoutUrl => "Could not parse URL from curl command"@,
            }),
    {
        match self {
            ImportError::CollectionNotJson => "Failed to parse Postman collection",
            ImportError::CollectionWithoutItems => "Invalid Postman collection format",
            ImportError::SpecNotJson => "Failed to parse OpenAPI spec",
            ImportError::SpecWithoutPaths => "Invalid OpenAPI spec: missing paths",
            ImportError::CurlWithoutUrl => "Could not parse URL from curl command",
        }
    }
}

/// A name with each character that is no letter, number, `-` or `_`
/// replaced by `-`.
pub open spec fn kept_for_file(name: Seq<char>) -> Seq<char> {
    Seq::new(
        name.len(),
        |i: int|
            if unicode_alphanumeric(name[i]) || name[i] == '-' || name[i] == '_' {
                name[i]
            } else {
                '-'
            },
    )
}

/// A name as the stem of a file name: each character that is no letter,
/// number, `-` or `_` replaced by `-`, and the whole in lower case.
pub open spec fn sanitized(name: Seq<char>) -> Seq<char> {
    lowercase_text(kept_for_file(name))
}

/// `name` as the stem of a file name.
pub fn sanitize_filename(name: &str) -> (r: String)
    ensures
        r@ == sanitized(name@),
{
    let chars = chars_of(name);
    let mut out: Vec<char> = Vec::new();
    let mut i: usize = 0;
    while i < chars.len()
        invariant
            i <= chars.len(),
            chars@ == name@,
            out@.len() == i,
            forall|k: int| 0 <= k < i ==> out@[k] == kept_for_file(name@)[k],
        decreases chars.len() - i,
    {
        let c = chars[i];
        if is_alphanumeric_char(c) || c == '-' || c == '_' {
            out.push(c);
        } else {
            out.push('-');
        }
        i += 1;
    }
    assert(out@ =~= kept_for_file(name@));
    lowercase(string_of(&out).as_str())
}

/// The text of the member under a name, or a fallback where the document
/// has no such member or the member is no string.
pub open spec fn text_member(doc: JsonModel, name: Seq<char>, fallback: Seq<char>) -> Seq<char> {
    match member_of(doc, name) {
        Some(JsonModel::String(text)) => text,
        _ => fallback,
    }
}

/// The text of the member under `name`, or `fallback`.
fn text_member_of(doc: &JsonValue, name: &str, fallback: &str) -> (r: String)
    ensures
        r@ == text_member(doc@, name@, fallback@),
{
    match doc.get(name) {
        Some(member) => match member.as_str() {
            Some(text) => text.clone(),
            None => fallback.to_owned(),
        },
        None => fallback.to_owned(),
    }
}

/// The URL of a Postman request: the `url` member where it is a string, its
/// `raw` member where it is an object, and a placeholder for the base URL in
/// any other case.
pub open spec fn postman_url(url: Option<JsonModel>) -> Seq<char> {
    match url {
        Some(JsonModel::String(text)) => text,
        Some(JsonModel::Object(members)) => text_member(
            JsonModel::Object(members),
            "raw"@,
            "{{base_url}}"@,
        ),
        _ => "{{base_url}}"@,
    }
}

/// The URL of a Postman request.
pub fn extract_url(url_value: Option<&JsonValue>) -> (r: String)
    ensures
        r@ == postman_url(
            match url_value {
                Some(v) => Some(v@),
                None => None,
            },
        ),
{
    match url_value {
        Some(value) => match value {
            JsonValue::String(text) => text.clone(),
            JsonValue::Object(_) => text_member_of(value, "raw", "{{base_url}}"),
            _ => "{{base_url}}".to_owned(),
        },
        None => "{{base_url}}".to_owned(),
    }
}

/// The text of a descriptor: a comment, the request, the headers, and an
/// assertion on the status.
pub open spec fn descriptor_text(
    comment: Seq<char>,
    method: Seq<char>,
    url: Seq<char>,
    headers: Seq<char>,
) -> Seq<char> {
    "# Imported from "@ + comment + "\n\n[request]\nmethod = \""@ + method + "\"\nurl = \""@ + url
        + "\"\n\n[headers]\n"@ + headers + "\n\n[assert]\nstatus = 200\n"@
}

/// The text of a descriptor.
fn write_descriptor(comment: &[char], method: &str, url: &[char], headers: &str) -> (r: String)
    ensures
        r@ == descriptor_text(comment@, method@, url@, headers@),
{
    let mut out: Vec<char> = Vec::new();
    push_text(&mut out, "# Imported from ");
    append_chars(&mut out, comment);
    push_text(&mut out, "\n\n[request]\nmethod = \"");
    push_text(&mut out, method);
    push_text(&mut out, "\"\nurl = \"");
    append_chars(&mut out, url);
    push_text(&mut out, "\"\n\n[headers]\n");
    push_text(&mut out, headers);
    push_text(&mut out, "\n\n[assert]\nstatus = 200\n");
    string_of(&out)
}

/// The name of the file for a stem.
pub open spec fn reqx_file_name(stem: Seq<char>) -> Seq<char> {
    stem + ".reqx"@
}

/// The name of the file for a stem.
fn file_name_for(stem: &str) -> (r: String)
    ensures
        r@ == reqx_file_name(stem@),
{
    let mut out = chars_of(stem);
    push_text(&mut out, ".reqx");
    string_of(&out)
}

/// The header that an imported descriptor declares where its source names
/// none.
pub open spec fn json_content_type() -> Seq<char> {
    "Content-Type = \"application/json\""@
}

/// The descriptor for an item of a Postman collection: none for an item
/// without a request; else the request's method, `GET` where it names none,
/// and URL, in a file named after the item, `request` where it has no name.
pub open spec fn postman_file(item: JsonModel) -> Option<ImportedModel> {
    match member_of(item, "request"@) {
        Some(request) => {
            let name = text_member(item, "name"@, "request"@);
            let method = text_member(request, "method"@, "GET"@);
            let url = postman_url(member_of(request, "url"@));
            Some(
                ImportedModel {
                    file_name: reqx_file_name(sanitized(name)),
                    content: descriptor_text(
                        "Postman: "@ + name,
                        method,
                        url,
                        json_content_type(),
                    ),
                },
            )
        },
        None => None,
    }
}

/// The descriptors for the first `count` items of a Postman collection, in
/// order.
pub open spec fn postman_files(items: Seq<JsonModel>, count: int) -> Seq<ImportedModel>
    decreases count,
{
    if count <= 0 {
        Seq::empty()
    } else {
        match postman_file(items[count - 1]) {
            Some(file) => postman_files(items, count - 1).push(file),
            None => postman_files(items, count - 1),
        }
    }
}

/// The descriptors that the text of a Postman collection stands for: one
/// for each of its items that has a request.
pub open spec fn postman_import(content: Seq<char>) -> Result<Seq<ImportedModel>, ImportError> {
    match json_parse(content) {
        None => Err(ImportError::CollectionNotJson),
        Some(collection) => match member_of(collection, "item"@) {
            Some(JsonModel::Array(items)) => Ok(postman_files(items, items.len() as int)),
            _ => Err(ImportError::CollectionWithoutItems),
        },
    }
}

/// The view of the outcome of an import.
pub open spec fn import_view(r: Result<Vec<ImportedFile>, ImportError>) -> Result<
    Seq<ImportedModel>,
    ImportError,
> {
    match r {
        Ok(files) => Ok(files_view(files@)),
        Err(e) => Err(e),
    }
}

/// The descriptors that a Postman collection stands for.
pub fn import_postman(content: &str) -> (r: Result<Vec<ImportedFile>, ImportError>)
    ensures
        import_view(r) == postman_import(content@),
{
    let collection = match JsonValue::parse(content) {
        Some(collection) => collection,
        None => {
            return Err(ImportError::CollectionNotJson);
        },
    };
    let items = match collection.get("item") {
        Some(list) => match list.as_array() {
            Some(items) => items,
            None => {
                return Err(ImportError::CollectionWithoutItems);
            },
        },
        None => {
            return Err(ImportError::CollectionWithoutItems);
        },
    };
    let ghost all = items_view(items@);
    let mut files: Vec<ImportedFile> = Vec::new();
    let mut i: usize = 0;
    while i < items.len()
        invariant
            i <= items.len(),
            all == items_view(items@),
            files_view(files@) == postman_files(all, i as int),
        decreases items.len() - i,
    {
        let item = &items[i];
        match item.get("request") {
            Some(request) => {
                let name = text_member_of(item, "name", "request");
                let method = text_member_of(request, "method", "GET");
                let url = extract_url(request.get("url"));
                let mut comment = chars_of("Postman: ");
                push_text(&mut comment, name.as_str());
                let content = write_descriptor(
                    &comment,
                    method.as_str(),
                    &chars_of(url.as_str()),
                    "Content-Type = \"application/json\"",
                );
                let file_name = file_name_for(sanitize_filename(name.as_str()).as_str());
                files.push(ImportedFile { file_name, content });
            },
            None => {},
        }
        i += 1;
    }
    Ok(files)
}

/// Whether a text is one of the methods that a descriptor can have.
pub open spec fn is_http_method(method: Seq<char>) -> bool {
    method == "GET"@ || method == "POST"@ || method == "PUT"@ || method == "PATCH"@ || method
        == "DELETE"@ || method == "HEAD"@ || method == "OPTIONS"@
}

/// Whether `method` is one of the methods that a descriptor can have.
pub fn is_method(method: &str) -> (r: bool)
    ensures
        r == is_http_method(method@),
{
    same_text(method, "GET") || same_text(method, "POST") || same_text(method, "PUT") || same_text(
        method,
        "PATCH",
    ) || same_text(method, "DELETE") || same_text(method, "HEAD") || same_text(method, "OPTIONS")
}

/// The base URL of an OpenAPI document: the URL of its first server, or a
/// placeholder where it names none.
pub open spec fn openapi_base_url(document: JsonModel) -> Seq<char> {
    match member_of(document, "servers"@) {
        Some(JsonModel::Array(servers)) => if servers.len() > 0 {
            text_member(servers[0], "url"@, "{{base_url}}"@)
        } else {
            "{{base_url}}"@
        },
        _ => "{{base_url}}"@,
    }
}

/// The base URL of an OpenAPI document.
fn base_url_of(document: &JsonValue) -> (r: String)
    ensures
        r@ == openapi_base_url(document@),
{
    match document.get("servers") {
        Some(list) => match list.as_array() {
            Some(servers) => if servers.len() > 0 {
                text_member_of(&servers[0], "url", "{{base_url}}")
            } else {
                "{{base_url}}".to_owned()
            },
            None => "{{base_url}}".to_owned(),
        },
        None => "{{base_url}}".to_owned(),
    }
}

/// The descriptor for an operation of an OpenAPI document: none where the
/// key, in upper case, is no method; else a request for the method at the
/// base URL followed by the path, in a file named after the key and the
/// path.
pub open spec fn openapi_file(base_url: Seq<char>, path: Seq<char>, key: Seq<char>) -> Option<
    ImportedModel,
> {
    let method = uppercase_text(key);
    if is_http_method(method) {
        Some(
            ImportedModel {
                file_name: reqx_file_name(
                    sanitized(key + "-"@ + replaced(strip_start(path, '/'), '/', '-')),
                ),
                content: descriptor_text(
                    "OpenAPI: "@ + method + " "@ + path,
                    method,
                    base_url + path,
                    json_content_type(),
                ),
            },
        )
    } else {
        None
    }
}

/// The descriptors for the first `count` operations under a path.
pub open spec fn openapi_operations(
    base_url: Seq<char>,
    path: Seq<char>,
    operations: Seq<(Seq<char>, JsonModel)>,
    count: int,
) -> Seq<ImportedModel>
    decreases count,
{
    if count <= 0 {
        Seq::empty()
    } else {
        match openapi_file(base_url, path, operations[count - 1].0) {
            Some(file) => openapi_operations(base_url, path, operations, count - 1).push(file),
            None => openapi_operations(base_url, path, operations, count - 1),
        }
    }
}

/// The descriptors for what stands under a path: for its operations where
/// it is an object, and none where it is not.
pub open spec fn openapi_path(base_url: Seq<char>, path: Seq<char>, item: JsonModel) -> Seq<
    ImportedModel,
> {
    match item {
        JsonModel::Object(operations) => openapi_operations(
            base_url,
            path,
            operations,
            operations.len() as int,
        ),
        _ => Seq::empty(),
    }
}

/// The descriptors for the first `count` paths of an OpenAPI document.
pub open spec fn openapi_paths(
    base_url: Seq<char>,
    paths: Seq<(Seq<char>, JsonModel)>,
    count: int,
) -> Seq<ImportedModel>
    decreases count,
{
    if count <= 0 {
        Seq::empty()
    } else {
        openapi_paths(base_url, paths, count - 1) + openapi_path(
            base_url,
            paths[count - 1].0,
            paths[count - 1].1,
        )
    }
}

/// The descriptors that the text of an OpenAPI document stands for: one
/// for each operation under each of its paths, in the order of the document.
pub open spec fn openapi_import(content: Seq<char>) -> Result<Seq<ImportedModel>, ImportError> {
    match json_parse(content) {
        None => Err(ImportError::SpecNotJson),
        Some(document) => match member_of(document, "paths"@) {
            Some(JsonModel::Object(paths)) => Ok(
                openapi_paths(openapi_base_url(document), paths, paths.len() as int),
            ),
            _ => Err(ImportError::SpecWithoutPaths),
        },
    }
}

/// Appends the descriptors for the operations under a path.
fn push_operations(
    files: &mut Vec<ImportedFile>,
    base_url: &str,
    path: &str,
    operations: &Vec<(String, JsonValue)>,
)
    ensures
        files_view(final(files)@) == files_view(old(files)@) + openapi_operations(
            base_url@,
            path@,
            members_view(operations@),
            operations@.len() as int,
        ),
{
    let ghost all = members_view(operations@);
    let ghost start = files_view(files@);
    let mut i: usize = 0;
    while i < operations.len()
        invariant
            i <= operations.len(),
            all == members_view(operations@),
            files_view(files@) == start + openapi_operations(base_url@, path@, all, i as int),
        decreases operations.len() - i,
    {
        let key = &operations[i].0;
        let method = uppercase(key.as_str());
        if is_method(method.as_str()) {
            let mut comment = chars_of("OpenAPI: ");
            push_text(&mut comment, method.as_str());
            push_text(&mut comment, " ");
            push_text(&mut comment, path);
            let mut url = chars_of(base_url);
            push_text(&mut url, path);
            let content = write_descriptor(
                &comment,
                method.as_str(),
                &url,
                "Content-Type = \"application/json\"",
            );
            let mut stem = chars_of(key.as_str());
            push_text(&mut stem, "-");
            let tail = replace_char(&strip_start_chars(&chars_of(path), '/'), '/', '-');
            append_chars(&mut stem, &tail);
            let file_name = file_name_for(sanitize_filename(string_of(&stem).as_str()).as_str());
            let ghost added = openapi_file(base_url@, path@, key@)->0;
            let ghost listed = files_view(files@);
            files.push(ImportedFile { file_name, content });
            assert(files_view(files@) == listed.push(added));
        }
        i += 1;
    }
}

/// The descriptors that an OpenAPI document stands for.
pub fn import_openapi(content: &str) -> (r: Result<Vec<ImportedFile>, ImportError>)
    ensures
        import_view(r) == openapi_import(content@),
{
    let document = match JsonValue::parse(content) {
        Some(document) => document,
        None => {
            return Err(ImportError::SpecNotJson);
        },
    };
    let paths = match document.get("paths") {
        Some(value) => match value.as_object() {
            Some(paths) => paths,
            None => {
                return Err(ImportError::SpecWithoutPaths);
            },
        },
        None => {
            return Err(ImportError::SpecWithoutPaths);
        },
    };
    let base_url = base_url_of(&document);
    let ghost all = members_view(paths@);
    let mut files: Vec<ImportedFile> = Vec::new();
    let mut i: usize = 0;
    while i < paths.len()
        invariant
            i <= paths.len(),
            all == members_view(paths@),
            files_view(files@) == openapi_paths(base_url@, all, i as int),
        decreases paths.len() - i,
    {
        match paths[i].1.as_object() {
            Some(operations) => {
                push_operations(&mut files, base_url.as_str(), paths[i].0.as_str(), operations);
            },
            None => {},
        }
        i += 1;
    }
    Ok(files)
}

/// What a curl command says so far: the method, the URL, and the headers
/// in order.
pub ghost struct CurlModel {
    pub method: Seq<char>,
    pub url: Seq<char>,
    pub headers: Seq<(Seq<char>, Seq<char>)>,
}

/// The header that a word after `-H` writes: the name before the first
/// colon and the value behind it, without the white space around the value;
/// none where the word holds no colon. Double quotes around the word are
/// dropped first.
pub open spec fn curl_header(word: Seq<char>) -> Option<(Seq<char>, Seq<char>)> {
    let header = strip(word, '"');
    match first_occurrence(header, seq![':']) {
        Some(at) => Some((header.take(at), trim(header.skip(at + 1)))),
        None => None,
    }
}

/// What a curl command says once its words from position `at` on are read
/// as well. `-X` and `--request` name the method with the word that
/// follows; `-H` and `--header` add a header with the word that follows; a
/// word that begins with `http://` or `https://` is the URL, without the
/// quotes around it; any other word is passed over.
pub open spec fn curl_scan(words: Seq<Seq<char>>, at: int, so_far: CurlModel) -> CurlModel
    decreases words.len() - at,
{
    if at < 0 || at >= words.len() {
        so_far
    } else {
        let word = words[at];
        if word == "-X"@ || word == "--request"@ {
            if at + 1 < words.len() {
                curl_scan(words, at + 2, CurlModel { method: words[at + 1], ..so_far })
            } else {
                curl_scan(words, at + 1, so_far)
            }
        } else if word == "-H"@ || word == "--header"@ {
            if at + 1 < words.len() {
                match curl_header(words[at + 1]) {
                    Some(header) => curl_scan(
                        words,
                        at + 2,
                        CurlModel { headers: so_far.headers.push(header), ..so_far },
                    ),
                    None => curl_scan(words, at + 2, so_far),
                }
            } else {
                curl_scan(words, at + 1, so_far)
            }
        } else if starts_with(word, "http://"@) || starts_with(word, "https://"@) {
            curl_scan(words, at + 1, CurlModel { url: strip(strip(word, '"'), '\''), ..so_far })
        } else {
            curl_scan(words, at + 1, so_far)
        }
    }
}

/// The headers of a descriptor as text: each as name, ` = ` and the value
/// between double quotes, on a line of its own.
pub open spec fn header_lines(headers: Seq<(Seq<char>, Seq<char>)>) -> Seq<char>
    decreases headers.len(),
{
    if headers.len() == 0 {
        Seq::empty()
    } else if headers.len() == 1 {
        headers[0].0 + " = \""@ + headers[0].1 + "\""@
    } else {
        header_lines(headers.drop_last()) + "\n"@ + headers.last().0 + " = \""@
            + headers.last().1 + "\""@
    }
}

/// The descriptor that the text of a curl command stands for: the method,
/// `GET` where the command names none, the URL and the headers of the
/// command, or a JSON content type where it names none. A command without a
/// URL stands for no descriptor.
pub open spec fn curl_import(content: Seq<char>) -> Result<ImportedModel, ImportError> {
    let said = curl_scan(
        words(content),
        0,
        CurlModel { method: "GET"@, url: Seq::empty(), headers: Seq::empty() },
    );
    if said.url.len() == 0 {
        Err(ImportError::CurlWithoutUrl)
    } else {
        Ok(
            ImportedModel {
                file_name: "imported-curl.reqx"@,
                content: descriptor_text(
                    "curl"@,
                    said.method,
                    said.url,
                    if said.headers.len() == 0 {
                        json_content_type()
                    } else {
                        header_lines(said.headers)
                    },
                ),
            },
        )
    }
}

/// The views of a list of headers.
pub open spec fn headers_view(headers: Seq<(Vec<char>, Vec<char>)>) -> Seq<(Seq<char>, Seq<char>)> {
    Seq::new(headers.len(), |i: int| (headers[i].0@, headers[i].1@))
}

/// The header that a word after `-H` writes.
fn read_curl_header(word: &[char]) -> (r: Option<(Vec<char>, Vec<char>)>)
    ensures
        match r {
            Some(header) => curl_header(word@) == Some((header.0@, header.1@)),
            None => curl_header(word@) is None,
        },
{
    let header = strip_chars(word, '"');
    let colon = vec![':'];
    assert(colon@ =~= seq![':']);
    match find_chars(&header, &colon) {
        Some(at) => {
            assert(at + colon@.len() <= header@.len() == header.len());
            let name = slice_chars(&header, 0, at);
            let value = trim_chars(&slice_chars(&header, at + 1, header.len()));
            Some((name, value))
        },
        None => None,
    }
}

/// The headers as text.
fn write_header_lines(headers: &Vec<(Vec<char>, Vec<char>)>) -> (r: String)
    ensures
        r@ == header_lines(headers_view(headers@)),
{
    let ghost all = headers_view(headers@);
    let mut out: Vec<char> = Vec::new();
    let mut i: usize = 0;
    while i < headers.len()
        invariant
            i <= headers.len(),
            all == headers_view(headers@),
            out@ == header_lines(all.take(i as int)),
        decreases headers.len() - i,
    {
        let ghost next = all.take(i + 1);
        assert(next.drop_last() == all.take(i as int));
        if i > 0 {
            push_text(&mut out, "\n");
        }
        append_chars(&mut out, &headers[i].0);
        push_text(&mut out, " = \"");
        append_chars(&mut out, &headers[i].1);
        push_text(&mut out, "\"");
        i += 1;
    }
    assert(all.take(all.len() as int) == all);
    string_of(&out)
}

/// The descriptor that a curl command stands for.
pub fn import_curl(content: &str) -> (r: Result<ImportedFile, ImportError>)
    ensures
        match r {
            Ok(file) => curl_import(content@) == Ok::<ImportedModel, ImportError>(file@),
            Err(e) => curl_import(content@) == Err::<ImportedModel, ImportError>(e),
        },
{
    let parts = split_words(&chars_of(content));
    let ghost all = chars_view(parts@);
    let mut method: Vec<char> = chars_of("GET");
    let mut url: Vec<char> = Vec::new();
    let mut headers: Vec<(Vec<char>, Vec<char>)> = Vec::new();
    let ghost first = CurlModel { method: "GET"@, url: Seq::empty(), headers: Seq::empty() };
    assert(headers_view(headers@) == Seq::<(Seq<char>, Seq<char>)>::empty());
    let mut i: usize = 0;
    while i < parts.len()
        invariant
            i <= parts.len(),
            all == chars_view(parts@),
            all == words(content@),
            curl_scan(all, 0, first) == curl_scan(
                all,
                i as int,
                CurlModel { method: method@, url: url@, headers: headers_view(headers@) },
            ),
        decreases parts.len() - i,
    {
        let word = &parts[i];
        let ghost listed = headers_view(headers@);
        if same_chars(word, &chars_of("-X")) || same_chars(word, &chars_of("--request")) {
            if i + 1 < parts.len() {
                method = slice_chars(&parts[i + 1], 0, parts[i + 1].len());
                assert(method@ == all[i + 1]);
                i += 1;
            }
        } else if same_chars(word, &chars_of("-H")) || same_chars(word, &chars_of("--header")) {
            if i + 1 < parts.len() {
                match read_curl_header(&parts[i + 1]) {
                    Some(header) => {
                        headers.push(header);
                        assert(headers_view(headers@) == listed.push(
                            curl_header(all[i + 1])->0,
                        ));
                    },
                    None => {},
                }
                i += 1;
            }
        } else if has_prefix(word, "http://") || has_prefix(word, "https://") {
            url = strip_chars(&strip_chars(word, '"'), '\'');
        }
        i += 1;
    }
    if url.len() == 0 {
        return Err(ImportError::CurlWithoutUrl);
    }
    let lines = if headers.len() == 0 {
        "Content-Type = \"application/json\"".to_owned()
    } else {
        write_header_lines(&headers)
    };
    let method_text = string_of(&method);
    let content = write_descriptor(&chars_of("curl"), method_text.as_str(), &url, lines.as_str());
    Ok(ImportedFile { file_name: "imported-curl.reqx".to_owned(), content })
}

} // verus!
