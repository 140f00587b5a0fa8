//! Reading a value of the configuration by its dotted key.

use vstd::prelude::*;
use crate::parser::document::{
    decode_toml, display_text, find_toml_member, table_members, toml_display_text,
    toml_member_named, toml_parse, toml_tree_of, TomlModel,
};
use crate::text::{
    chars_of, find_chars, first_occurrence, lemma_first_occurrence_from, slice_chars, string_of,
};

verus! {
/// The parts of a dotted key: what stands between the dots, in order. A
/// key without a dot has one part, and two dots in a row have an empty part
/// between them.
pub open spec fn key_parts(key: Seq<char>) -> Seq<Seq<char>>
    decreases key.len(),
{
    match first_occurrence(key, seq!['.']) {
        Some(at) => {
            proof {
                lemma_first_occurrence_from(key, seq!['.'], 0);
            }
            seq![key.take(at)] + key_parts(key.skip(at + 1))
        },
        None => seq![key],
    }
}

/// The views of a list of strings.
pub open spec fn parts_view(parts: Seq<String>) -> Seq<Seq<char>> {
    Seq::new(parts.len(), |i: int| parts[i]@)
}

/// The parts of a dotted key.
pub fn split_key(key: &str) -> (r: Vec<String>)
    ensures
        parts_view(r@) == key_parts(key@),
{
    let chars = chars_of(key);
    let dot = vec!['.'];
    let mut parts: Vec<String> = Vec::new();
    let mut from: usize = 0;
    assert(chars@.skip(0) == chars@);
    loop
        invariant_except_break
            key_parts(key@) == parts_view(parts@) + key_parts(chars@.skip(from as int)),
        invariant
            from <= chars.len(),
            chars@ == key@,
            dot@ == seq!['.'],
        ensures
            parts_view(parts@) == key_parts(key@),
        decreases chars.len() - from,
    {
        let rest = slice_chars(&chars, from, chars.len());
        match find_chars(&rest, &dot) {
            Some(at) => {
                let part = string_of(&slice_chars(&rest, 0, at));
                parts.push(part);
                assert(rest@.skip(at + 1) == chars@.skip(from + at + 1));
                from = from + at + 1;
            },
            None => {
                parts.push(string_of(&rest));
                break ;
            },
        }
    }
    parts
}

/// What a document holds under the parts of a key, from position `from`
/// on: each part names a member of the table that the parts before it lead
/// to. Nothing is held under a part in a value that is no table, or in a
/// table without a member of that name.
pub open spec fn nested_value(tree: TomlModel, parts: Seq<Seq<char>>, from: int) -> Option<TomlModel>
    decreases parts.len() - from,
{
    if from < 0 || from >= parts.len() {
        Some(tree)
    } else {
        match tree {
            TomlModel::Table(members) => match toml_member_named(members, parts[from]) {
                Some(member) => nested_value(member, parts, from + 1),
                None => None,
            },
            _ => None,
        }
    }
}

/// The value of a configuration under a dotted key, as `toml` writes it:
/// none where the text of the configuration is not TOML, or it holds nothing
/// under the key.
pub open spec fn configured(content: Seq<char>, key: Seq<char>) -> Option<Seq<char>> {
    match toml_parse(content) {
        Some(tree) => match nested_value(tree, key_parts(key), 0) {
            Some(value) => Some(toml_display_text(value)),
            None => None,
        },
        None => None,
    }
}

/// What `document` holds under the parts of a key from position `from` on,
/// as `toml` writes it.
fn nested_text(document: &toml::Value, parts: &Vec<String>, from: usize) -> (r: Option<String>)
    requires
        from <= parts@.len(),
    ensures
        match r {
            Some(text) => match nested_value(toml_tree_of(*document), parts_view(parts@), from as int) {
                Some(value) => text@ == toml_display_text(value),
                None => false,
            },
            None => nested_value(toml_tree_of(*document), parts_view(parts@), from as int) is None,
        },
    decreases parts@.len() - from,
{
    if from >= parts.len() {
        return Some(display_text(document));
    }
    match table_members(document) {
        Some(members) => {
            match find_toml_member(&members, parts[from].as_str()) {
                Some(member) => nested_text(member, parts, from + 1),
                None => None,
            }
        },
        None => None,
    }
}

/// The value of a configuration under a dotted key, as text.
pub fn get_nested_value(content: &str, key: &str) -> (r: Option<String>)
    ensures
        match r {
            Some(text) => configured(content@, key@) == Some(text@),
            None => configured(content@, key@) is None,
        },
{
    match decode_toml(content) {
        Some(document) => {
            let parts = split_key(key);
            nested_text(&document, &parts, 0)
        },
        None => None,
    }
}

} // verus!
