//! JSON documents as the evaluators see them, and the calls into
//! `serde_json` that read and write their text.

use vstd::prelude::*;

verus! {
/// A JSON document. A number is held as the text that `serde_json` writes
/// for it; an object is held as its members in order, and a member overrides
/// the members before it that have the same name.
#[derive(Debug, PartialEq)]
pub enum JsonValue {
    Null,
    Bool(bool),
    Number(String),
    String(String),
    Array(Vec<JsonValue>),
    Object(Vec<(String, JsonValue)>),
}

/// What a `JsonValue` holds.
pub ghost enum JsonModel {
    Null,
    Bool(bool),
    Number(Seq<char>),
    String(Seq<char>),
    Array(Seq<JsonModel>),
    Object(Seq<(Seq<char>, JsonModel)>),
}

/// What a document holds.
pub open spec fn model_of(doc: JsonValue) -> JsonModel
    decreases doc,
{
    match doc {
        JsonValue::Null => JsonModel::Null,
        JsonValue::Bool(b) => JsonModel::Bool(b),
        JsonValue::Number(n) => JsonModel::Number(n@),
        JsonValue::String(s) => JsonModel::String(s@),
        JsonValue::Array(items) => JsonModel::Array(
            Seq::new(
                items@.len(),
                |i: int|
                    if 0 <= i < items@.len() {
                        model_of(items@[i])
                    } else {
                        JsonModel::Null
                    },
            ),
        ),
        JsonValue::Object(members) => JsonModel::Object(
            Seq::new(
                members@.len(),
                |i: int|
                    if 0 <= i < members@.len() {
                        (members@[i].0@, model_of(members@[i].1))
                    } else {
                        (Seq::empty(), JsonModel::Null)
                    },
            ),
        ),
    }
}

impl View for JsonValue {
    type V = JsonModel;

    open spec fn view(&self) -> JsonModel {
        model_of(*self)
    }
}

/// The views of a list of documents.
pub open spec fn items_view(items: Seq<JsonValue>) -> Seq<JsonModel> {
    Seq::new(items.len(), |i: int| items[i]@)
}

/// The views of a list of members.
pub open spec fn members_view(members: Seq<(String, JsonValue)>) -> Seq<(Seq<char>, JsonModel)> {
    Seq::new(members.len(), |i: int| (members[i].0@, members[i].1@))
}

/// The view of an array is the array of its items' views.
pub proof fn lemma_array_view(items: Vec<JsonValue>)
    ensures
        JsonValue::Array(items)@ == JsonModel::Array(items_view(items@)),
{
    assert(JsonValue::Array(items)@->Array_0 =~= items_view(items@));
}

/// The view of an object is the object of its members' views.
pub proof fn lemma_object_view(members: Vec<(String, JsonValue)>)
    ensures
        JsonValue::Object(members)@ == JsonModel::Object(members_view(members@)),
{
    assert(JsonValue::Object(members)@->Object_0 =~= members_view(members@));
}

/// The member that an object gives under a name: the last one that has it.
pub open spec fn member_named(members: Seq<(Seq<char>, JsonModel)>, name: Seq<char>) -> Option<
    JsonModel,
>
    decreases members.len(),
{
    if members.len() == 0 {
        None
    } else if members.last().0 == name {
        Some(members.last().1)
    } else {
        member_named(members.drop_last(), name)
    }
}

/// The member of a document under a name: a member of an object, and
/// nothing of any other document.
pub open spec fn member_of(doc: JsonModel, name: Seq<char>) -> Option<JsonModel> {
    match doc {
        JsonModel::Object(members) => member_named(members, name),
        _ => None,
    }
}

/// `serde_json::Value`, carried through as it is.
#[verifier::external_type_specification]
#[verifier::external_body]
pub struct ExValue(serde_json::Value);

/// What a `serde_json::Value` holds: numbers as `serde_json` writes them,
/// the members of an object in the order in which it walks them.
pub uninterp spec fn tree_of(v: serde_json::Value) -> JsonModel;

/// What `serde_json::from_str` decodes from a text; `None` where it rejects
/// the text.
pub uninterp spec fn json_parse(text: Seq<char>) -> Option<JsonModel>;

/// What `serde_json` holds once a document is handed to it member by
/// member: `serde_json::Map` keeps one member for each name, and
/// `serde_json::Number` reads the text of a number.
pub uninterp spec fn serde_form(doc: JsonModel) -> JsonModel;

/// The text that the `Display` of `serde_json::Value` writes for what the
/// value holds.
pub uninterp spec fn json_compact_text(tree: JsonModel) -> Seq<char>;

/// The text that the `Debug` of `serde_json::Value` writes for what the value
/// holds.
pub uninterp spec fn json_debug_text(tree: JsonModel) -> Seq<char>;

/// The text that `serde_json::to_string_pretty` writes for what a value
/// holds.
pub uninterp spec fn json_pretty_text(tree: JsonModel) -> Seq<char>;

/// `serde_json::from_str` for a `serde_json::Value`: the decoded value holds
/// what `json_parse` names, and there is none exactly where the text is
/// rejected.
#[verifier::external_body]
fn decode_json(text: &str) -> (r: Option<serde_json::Value>)
    ensures
        r is Some <==> json_parse(text@) is Some,
        r matches Some(v) ==> json_parse(text@) == Some(tree_of(v)),
{
    serde_json::from_str::<serde_json::Value>(text).ok()
}

/// Copies a `serde_json::Value` into a `JsonValue`, variant by variant; a
/// number by `serde_json::Number`'s `to_string`.
#[verifier::external_body]
pub(crate) fn import_value(v: &serde_json::Value) -> (r: JsonValue)
    ensures
        r@ == tree_of(*v),
{
    match v {
        serde_json::Value::Null => JsonValue::Null,
        serde_json::Value::Bool(b) => JsonValue::Bool(*b),
        serde_json::Value::Number(n) => JsonValue::Number(n.to_string()),
        serde_json::Value::String(s) => JsonValue::String(s.clone()),
        serde_json::Value::Array(a) => JsonValue::Array(a.iter().map(import_value).collect()),
        serde_json::Value::Object(o) => JsonValue::Object(
            o.iter().map(|(k, x)| (k.clone(), import_value(x))).collect(),
        ),
    }
}

/// Copies a `JsonValue` into a `serde_json::Value`, variant by variant; a
/// number by `serde_json::Number`'s `from_str`, as null where that rejects
/// the text. What the result holds depends on the document's view alone.
#[verifier::external_body]
fn export_value(v: &JsonValue) -> (r: serde_json::Value)
    ensures
        tree_of(r) == serde_form(v@),
{
    match v {
        JsonValue::Null => serde_json::Value::Null,
        JsonValue::Bool(b) => serde_json::Value::Bool(*b),
        JsonValue::Number(t) => t.parse().map(serde_json::Value::Number).unwrap_or(
            serde_json::Value::Null,
        ),
        JsonValue::String(s) => serde_json::Value::String(s.clone()),
        JsonValue::Array(a) => serde_json::Value::Array(a.iter().map(export_value).collect()),
        JsonValue::Object(o) => serde_json::Value::Object(
            o.iter().map(|(k, x)| (k.clone(), export_value(x))).collect(),
        ),
    }
}

/// `to_string` of a `serde_json::Value`, which goes through its `Display`:
/// compact JSON text, a function of what the value holds.
#[verifier::external_body]
fn outside_text(v: &serde_json::Value) -> (r: String)
    ensures
        r@ == json_compact_text(tree_of(*v)),
{
    v.to_string()
}

/// The `Debug` text of a `serde_json::Value`, a function of what the value
/// holds.
#[verifier::external_body]
fn outside_debug(v: &serde_json::Value) -> (r: String)
    ensures
        r@ == json_debug_text(tree_of(*v)),
{
    format!("{:?}", v)
}

/// `serde_json::to_string_pretty` of a `serde_json::Value`: indented JSON
/// text, a function of what the value holds; the empty text where
/// `serde_json` reports an error.
#[verifier::external_body]
fn outside_pretty(v: &serde_json::Value) -> (r: String)
    ensures
        r@ == json_pretty_text(tree_of(*v)),
{
    serde_json::to_string_pretty(v).unwrap_or_default()
}

impl JsonValue {
    /// The document that a text encodes, if it is JSON.
    pub fn parse(text: &str) -> (r: Option<JsonValue>)
        ensures
            r is Some <==> json_parse(text@) is Some,
            r matches Some(v) ==> json_parse(text@) == Some(v@),
    {
        match decode_json(text) {
            Some(v) => Some(import_value(&v)),
            None => None,
        }
    }

    /// A response body as a document: the document that the text encodes,
    /// or, where the text is not JSON, the text itself as a string.
    pub fn from_body_text(text: &str) -> (r: JsonValue)
        ensures
            r@ == body_document(text@),
    {
        match JsonValue::parse(text) {
            Some(v) => v,
            None => JsonValue::String(text.to_owned()),
        }
    }

    /// The compact JSON text of the document.
    pub fn compact_text(&self) -> (r: String)
        ensures
            r@ == json_compact_text(serde_form(self@)),
    {
        let outside = export_value(self);
        outside_text(&outside)
    }

    /// The indented JSON text of the document.
    pub fn pretty_text(&self) -> (r: String)
        ensures
            r@ == json_pretty_text(serde_form(self@)),
    {
        let outside = export_value(self);
        outside_pretty(&outside)
    }

    /// The document that is the string `text`.
    pub fn text(text: &str) -> (r: JsonValue)
        ensures
            r@ == JsonModel::String(text@),
    {
        JsonValue::String(text.to_owned())
    }

    /// The document that is the number `n`.
    pub fn number(n: u128) -> (r: JsonValue)
        ensures
            r@ == JsonModel::Number(crate::text::decimal_text(n as nat)),
    {
        JsonValue::Number(crate::text::string_of(&crate::text::wide_decimal_chars(n)))
    }

    /// The document that is the text, or null where there is none.
    pub fn optional_text(text: &Option<String>) -> (r: JsonValue)
        ensures
            r@ == (match *text {
                Some(t) => JsonModel::String(t@),
                None => JsonModel::Null,
            }),
    {
        match text {
            Some(t) => JsonValue::String(t.clone()),
            None => JsonValue::Null,
        }
    }

    /// The object of a list of members.
    pub fn object(members: Vec<(String, JsonValue)>) -> (r: JsonValue)
        ensures
            r@ == JsonModel::Object(members_view(members@)),
    {
        proof {
            lemma_object_view(members);
        }
        JsonValue::Object(members)
    }

    /// The array of a list of items.
    pub fn array(items: Vec<JsonValue>) -> (r: JsonValue)
        ensures
            r@ == JsonModel::Array(items_view(items@)),
    {
        proof {
            lemma_array_view(items);
        }
        JsonValue::Array(items)
    }

    /// The text that describes the document's structure, variant by
    /// variant.
    pub fn debug_text(&self) -> (r: String)
        ensures
            r@ == json_debug_text(serde_form(self@)),
    {
        let outside = export_value(self);
        outside_debug(&outside)
    }

    /// The member of the document under `name`.
    pub fn get(&self, name: &str) -> (r: Option<&JsonValue>)
        ensures
            match r {
                Some(v) => member_of(self@, name@) == Some(v@),
                None => member_of(self@, name@) is None,
            },
    {
        match self {
            JsonValue::Object(members) => {
                proof {
                    lemma_object_view(*members);
                }
                let wanted = name.to_owned();
                let ghost all = members_view(members@);
                let mut i: usize = members.len();
                assert(all.take(i as int) == all);
                while i > 0
                    invariant
                        i <= members.len(),
                        wanted@ == name@,
                        all == members_view(members@),
                        self@ == JsonModel::Object(all),
                        member_named(all, name@) == member_named(all.take(i as int), name@),
                    decreases i,
                {
                    i -= 1;
                    assert(all.take(i + 1).drop_last() == all.take(i as int));
                    if members[i].0 == wanted {
                        return Some(&members[i].1);
                    }
                }
                None
            },
            _ => None,
        }
    }

    /// The text of the document, if it is a string.
    pub fn as_str(&self) -> (r: Option<&String>)
        ensures
            match r {
                Some(text) => self@ == JsonModel::String(text@),
                None => !(self@ is String),
            },
    {
        match self {
            JsonValue::String(text) => Some(text),
            _ => None,
        }
    }

    /// The items of the document, if it is an array.
    pub fn as_array(&self) -> (r: Option<&Vec<JsonValue>>)
        ensures
            match r {
                Some(items) => self@ == JsonModel::Array(items_view(items@)),
                None => !(self@ is Array),
            },
    {
        match self {
            JsonValue::Array(items) => {
                proof {
                    lemma_array_view(*items);
                }
                Some(items)
            },
            _ => None,
        }
    }

    /// The members of the document, if it is an object.
    pub fn as_object(&self) -> (r: Option<&Vec<(String, JsonValue)>>)
        ensures
            match r {
                Some(members) => self@ == JsonModel::Object(members_view(members@)),
                None => !(self@ is Object),
            },
    {
        match self {
            JsonValue::Object(members) => {
                proof {
                    lemma_object_view(*members);
                }
                Some(members)
            },
            _ => None,
        }
    }

    /// Whether the document is null.
    pub fn is_null(&self) -> (r: bool)
        ensures
            r == (self@ is Null),
    {
        matches!(self, JsonValue::Null)
    }

    /// Whether the document is an array.
    pub fn is_array(&self) -> (r: bool)
        ensures
            r == (self@ is Array),
    {
        matches!(self, JsonValue::Array(_))
    }

    /// Whether the document is an object.
    pub fn is_object(&self) -> (r: bool)
        ensures
            r == (self@ is Object),
    {
        matches!(self, JsonValue::Object(_))
    }

    /// Whether the document is a string.
    pub fn is_string(&self) -> (r: bool)
        ensures
            r == (self@ is String),
    {
        matches!(self, JsonValue::String(_))
    }

    /// Whether the document is a number.
    pub fn is_number(&self) -> (r: bool)
        ensures
            r == (self@ is Number),
    {
        matches!(self, JsonValue::Number(_))
    }
}

/// Adds a member at the end of a list of members.
pub fn push_member(members: &mut Vec<(String, JsonValue)>, name: &str, value: JsonValue)
    ensures
        members_view(final(members)@) == members_view(old(members)@).push((name@, value@)),
{
    members.push((name.to_owned(), value));
}

/// Adds an item at the end of a list of items.
pub fn push_item(items: &mut Vec<JsonValue>, value: JsonValue)
    ensures
        items_view(final(items)@) == items_view(old(items)@).push(value@),
{
    items.push(value);
}

/// A response body as a document: what the text decodes to, or the text as
/// a string where it is not JSON.
pub open spec fn body_document(text: Seq<char>) -> JsonModel {
    match json_parse(text) {
        Some(doc) => doc,
        None => JsonModel::String(text),
    }
}

/// A document as text for comparison: a string without quotes, a number,
/// a boolean and null in their usual notation, an array or an object as
/// compact JSON.
pub open spec fn json_text(doc: JsonModel) -> Seq<char> {
    match doc {
        JsonModel::String(s) => s,
        JsonModel::Number(n) => n,
        JsonModel::Bool(b) => if b {
            "true"@
        } else {
            "false"@
        },
        JsonModel::Null => "null"@,
        _ => json_compact_text(serde_form(doc)),
    }
}

/// A document as text for comparison.
pub fn json_value_to_string(value: &JsonValue) -> (r: String)
    ensures
        r@ == json_text(value@),
{
    match value {
        JsonValue::String(s) => s.clone(),
        JsonValue::Number(n) => n.clone(),
        JsonValue::Bool(b) => if *b {
            "true".to_owned()
        } else {
            "false".to_owned()
        },
        JsonValue::Null => "null".to_owned(),
        _ => value.compact_text(),
    }
}

} // verus!
