//! TOML documents as `toml` decodes them, read through a few questions.

use vstd::prelude::*;
use crate::json::{tree_of, JsonModel};

verus! {
/// `toml::Value`, carried through as it is.
#[verifier::external_type_specification]
#[verifier::external_body]
pub struct ExTomlValue(toml::Value);

/// What a `toml::Value` holds. A float and a date are held as the text
/// that their `Display` writes; the members of a table stand in the order in
/// which `toml` walks them.
pub ghost enum TomlModel {
    String(Seq<char>),
    Integer(int),
    Float(Seq<char>),
    Boolean(bool),
    Datetime(Seq<char>),
    Array(Seq<TomlModel>),
    Table(Seq<(Seq<char>, TomlModel)>),
}

/// What a `toml::Value` holds.
pub uninterp spec fn toml_tree_of(v: toml::Value) -> TomlModel;

/// What `toml::from_str` decodes from a text; `None` where it rejects the
/// text.
pub uninterp spec fn toml_parse(text: Seq<char>) -> Option<TomlModel>;

/// The text that the `Display` of `toml::Value` writes for what a value
/// holds.
pub uninterp spec fn toml_display_text(tree: TomlModel) -> Seq<char>;

/// What `serde_json::to_value` makes of what a `toml::Value` holds; null
/// where it reports an error.
pub uninterp spec fn toml_json_form(tree: TomlModel) -> JsonModel;

/// `toml::from_str` for a `toml::Value`: the decoded value holds what
/// `toml_parse` names, and there is none exactly where the text is rejected.
#[verifier::external_body]
pub(crate) fn decode_toml(text: &str) -> (r: Option<toml::Value>)
    ensures
        r is Some <==> toml_parse(text@) is Some,
        r matches Some(v) ==> toml_parse(text@) == Some(toml_tree_of(v)),
{
    toml::from_str::<toml::Value>(text).ok()
}

/// `as_table` of a `toml::Value`, with the members copied out in the order
/// in which the table walks them; none for a value that is no table.
#[verifier::external_body]
pub(crate) fn table_members(v: &toml::Value) -> (r: Option<Vec<(String, toml::Value)>>)
    ensures
        r is Some <==> toml_tree_of(*v) is Table,
        r matches Some(members) ==> toml_tree_of(*v) == TomlModel::Table(
            Seq::new(
                members@.len(),
                |i: int| (members@[i].0@, toml_tree_of(members@[i].1)),
            ),
        ),
{
    v.as_table().map(|t| t.iter().map(|(k, m)| (k.clone(), m.clone())).collect())
}

/// `as_str` of a `toml::Value`: the text of a string, and none for any
/// other value.
#[verifier::external_body]
pub(crate) fn string_text(v: &toml::Value) -> (r: Option<String>)
    ensures
        r is Some <==> toml_tree_of(*v) is String,
        r matches Some(text) ==> toml_tree_of(*v) == TomlModel::String(text@),
{
    v.as_str().map(|s| s.to_owned())
}

/// `to_string` of a `toml::Value`, which goes through its `Display`.
#[verifier::external_body]
pub(crate) fn display_text(v: &toml::Value) -> (r: String)
    ensures
        r@ == toml_display_text(toml_tree_of(*v)),
{
    v.to_string()
}

/// `serde_json::to_value` of a `toml::Value`; null where it reports an
/// error.
#[verifier::external_body]
pub(crate) fn json_form(v: &toml::Value) -> (r: serde_json::Value)
    ensures
        tree_of(r) == toml_json_form(toml_tree_of(*v)),
{
    serde_json::to_value(v).unwrap_or_default()
}

/// The views of a list of members.
pub open spec fn toml_members_view(members: Seq<(String, toml::Value)>) -> Seq<
    (Seq<char>, TomlModel),
> {
    Seq::new(members.len(), |i: int| (members[i].0@, toml_tree_of(members[i].1)))
}

/// The member of a table under a name: the last one that has it.
pub open spec fn toml_member_named(members: Seq<(Seq<char>, TomlModel)>, name: Seq<char>) -> Option<
    TomlModel,
>
    decreases members.len(),
{
    if members.len() == 0 {
        None
    } else if members.last().0 == name {
        Some(members.last().1)
    } else {
        toml_member_named(members.drop_last(), name)
    }
}

/// The member of a list of members under `name`.
pub(crate) fn find_toml_member<'a>(members: &'a Vec<(String, toml::Value)>, name: &str) -> (r: Option<
    &'a toml::Value,
>)
    ensures
        match r {
            Some(v) => toml_member_named(toml_members_view(members@), name@) == Some(
                toml_tree_of(*v),
            ),
            None => toml_member_named(toml_members_view(members@), name@) is None,
        },
{
    let wanted = name.to_owned();
    let ghost all = toml_members_view(members@);
    let mut i: usize = members.len();
    assert(all.take(i as int) == all);
    while i > 0
        invariant
            i <= members.len(),
            wanted@ == name@,
            all == toml_members_view(members@),
            toml_member_named(all, name@) == toml_member_named(all.take(i as int), name@),
        decreases i,
    {
        i -= 1;
        assert(all.take(i + 1).drop_last() == all.take(i as int));
        if members[i].0 == wanted {
            return Some(&members[i].1);
        }
    }
    None
}

} // verus!
