//! Path queries: the grammar of an address inside a document, and the walk
//! that resolves it.

use vstd::prelude::*;
use crate::json::{JsonModel, JsonValue, lemma_array_view, member_named};
use crate::text::{chars_of, index_value, parse_index, slice_chars, string_of};

verus! {
/// One step of a path.
#[derive(Debug, PartialEq)]
pub enum PathSegment {
    /// Property access (.name)
    Property(String),
    /// Index access ([0])
    Index(usize),
    /// Wildcard ([*])
    Wildcard,
}

/// What a `PathSegment` holds.
pub ghost enum SegmentModel {
    Property(Seq<char>),
    Index(nat),
    Wildcard,
}

impl View for PathSegment {
    type V = SegmentModel;

    open spec fn view(&self) -> SegmentModel {
        match self {
            PathSegment::Property(name) => SegmentModel::Property(name@),
            PathSegment::Index(n) => SegmentModel::Index(*n as nat),
            PathSegment::Wildcard => SegmentModel::Wildcard,
        }
    }
}

/// The views of a list of segments.
pub open spec fn segments_view(segments: Seq<PathSegment>) -> Seq<SegmentModel> {
    Seq::new(segments.len(), |i: int| segments[i]@)
}

/// Whether `c` ends a word of a path: a bracket always does, a dot does
/// outside brackets.
pub open spec fn is_delimiter(c: char, in_bracket: bool) -> bool {
    c == '[' || c == ']' || (c == '.' && !in_bracket)
}

/// The end of the word that begins at `from`: the position of the next
/// delimiter, or the end of the path.
pub open spec fn word_end(path: Seq<char>, from: int, in_bracket: bool) -> int
    decreases path.len() - from,
{
    if from < 0 || from >= path.len() {
        path.len() as int
    } else if is_delimiter(path[from], in_bracket) {
        from
    } else {
        word_end(path, from + 1, in_bracket)
    }
}

/// A word ends at or after its beginning, within the path, and holds no
/// delimiter.
pub proof fn lemma_word_end(path: Seq<char>, from: int, in_bracket: bool)
    requires
        0 <= from <= path.len(),
    ensures
        from <= word_end(path, from, in_bracket) <= path.len(),
        forall|k: int|
            from <= k < word_end(path, from, in_bracket) ==> !is_delimiter(
                #[trigger] path[k],
                in_bracket,
            ),
        word_end(path, from, in_bracket) < path.len() ==> is_delimiter(
            path[word_end(path, from, in_bracket)],
            in_bracket,
        ),
    decreases path.len() - from,
{
    if from < path.len() && !is_delimiter(path[from], in_bracket) {
        lemma_word_end(path, from + 1, in_bracket);
    }
}

/// The segment that a closing bracket makes of the word before it: a
/// wildcard of `*`, an index of a number, and none of anything else.
pub open spec fn bracket_segment(word: Seq<char>) -> Option<SegmentModel> {
    if word == seq!['*'] {
        Some(SegmentModel::Wildcard)
    } else {
        match index_value(word) {
            Some(n) => Some(SegmentModel::Index(n)),
            None => None,
        }
    }
}

/// `rest` after the property that `word` names; an empty word names none.
pub open spec fn after_property(word: Seq<char>, rest: Seq<SegmentModel>) -> Seq<SegmentModel> {
    if word.len() == 0 {
        rest
    } else {
        seq![SegmentModel::Property(word)] + rest
    }
}

/// The segments of the part of a path that begins at `from`. A word that
/// ends at a dot, at an opening bracket or at the end of the path names a
/// property; a word that ends at a closing bracket is a wildcard or an
/// index, and the path has no segments if it is neither.
pub open spec fn segments_from(path: Seq<char>, from: int, in_bracket: bool) -> Option<
    Seq<SegmentModel>,
>
    decreases path.len() - from,
{
    if from < 0 || from >= path.len() {
        Some(Seq::empty())
    } else {
        let stop = word_end(path, from, in_bracket);
        let word = path.subrange(from, stop);
        if stop >= path.len() {
            Some(after_property(word, Seq::empty()))
        } else {
            proof {
                lemma_word_end(path, from, in_bracket);
            }
            if path[stop] == ']' {
                match (bracket_segment(word), segments_from(path, stop + 1, false)) {
                    (Some(segment), Some(rest)) => Some(seq![segment] + rest),
                    _ => None,
                }
            } else {
                match segments_from(path, stop + 1, path[stop] == '[') {
                    Some(rest) => Some(after_property(word, rest)),
                    None => None,
                }
            }
        }
    }
}

/// The segments of a path; `None` where a bracket holds neither `*` nor an
/// index.
pub open spec fn path_segments(path: Seq<char>) -> Option<Seq<SegmentModel>> {
    segments_from(path, 0, false)
}

/// `rest` after the segments in `done`.
pub open spec fn segments_after(done: Seq<SegmentModel>, rest: Option<Seq<SegmentModel>>) -> Option<
    Seq<SegmentModel>,
> {
    match rest {
        Some(rest) => Some(done + rest),
        None => None,
    }
}

/// The segments of a path.
pub fn split_path(path: &str) -> (r: Option<Vec<PathSegment>>)
    ensures
        match r {
            Some(segments) => path_segments(path@) == Some(segments_view(segments@)),
            None => path_segments(path@) is None,
        },
{
    let s = chars_of(path);
    let mut segments: Vec<PathSegment> = Vec::new();
    let mut from: usize = 0;
    let mut in_bracket = false;
    while from < s.len()
        invariant
            from <= s.len(),
            s@ == path@,
            path_segments(path@) == segments_after(
                segments_view(segments@),
                segments_from(s@, from as int, in_bracket),
            ),
        decreases s.len() - from,
    {
        let mut stop: usize = from;
        while stop < s.len() && !(s[stop] == '[' || s[stop] == ']' || (s[stop] == '.'
            && !in_bracket))
            invariant
                from <= stop <= s.len(),
                word_end(s@, from as int, in_bracket) == word_end(s@, stop as int, in_bracket),
            decreases s.len() - stop,
        {
            stop += 1;
        }
        let word = slice_chars(&s, from, stop);
        if stop >= s.len() {
            if word.len() > 0 {
                segments.push(PathSegment::Property(string_of(&word)));
            }
            from = s.len();
        } else if s[stop] == ']' {
            let star = word.len() == 1 && word[0] == '*';
            assert(star <==> word@ =~= seq!['*']);
            if star {
                segments.push(PathSegment::Wildcard);
            } else {
                match parse_index(&word) {
                    Some(n) => {
                        segments.push(PathSegment::Index(n));
                    },
                    None => {
                        return None;
                    },
                }
            }
            in_bracket = false;
            from = stop + 1;
        } else {
            let opens = s[stop] == '[';
            if word.len() > 0 {
                segments.push(PathSegment::Property(string_of(&word)));
            }
            in_bracket = opens;
            from = stop + 1;
        }
    }
    Some(segments)
}

/// Where one segment leads from a document: a property to the member of an
/// object under that name, an index to the item of an array at that
/// position, a wildcard to the first item of an array; nowhere from anything
/// else.
pub open spec fn step(doc: JsonModel, segment: SegmentModel) -> Option<JsonModel> {
    match segment {
        SegmentModel::Property(name) => match doc {
            JsonModel::Object(members) => member_named(members, name),
            _ => None,
        },
        SegmentModel::Index(n) => match doc {
            JsonModel::Array(items) => if n < items.len() {
                Some(items[n as int])
            } else {
                None
            },
            _ => None,
        },
        SegmentModel::Wildcard => match doc {
            JsonModel::Array(items) => if items.len() > 0 {
                Some(items[0])
            } else {
                None
            },
            _ => None,
        },
    }
}

/// Where a list of segments leads from a document, one step after the
/// other; nowhere once a step leads nowhere.
pub open spec fn resolve(doc: JsonModel, segments: Seq<SegmentModel>) -> Option<JsonModel>
    decreases segments.len(),
{
    if segments.len() == 0 {
        Some(doc)
    } else {
        match step(doc, segments[0]) {
            Some(next) => resolve(next, segments.drop_first()),
            None => None,
        }
    }
}

/// What a path addresses in a document; `None` is "not found".
pub open spec fn query(doc: JsonModel, path: Seq<char>) -> Option<JsonModel> {
    match path_segments(path) {
        Some(segments) => resolve(doc, segments),
        None => None,
    }
}

/// Where one segment leads from a document.
fn step_into<'a>(doc: &'a JsonValue, segment: &PathSegment) -> (r: Option<&'a JsonValue>)
    ensures
        match r {
            Some(v) => step(doc@, segment@) == Some(v@),
            None => step(doc@, segment@) is None,
        },
{
    match segment {
        PathSegment::Property(name) => match doc {
            JsonValue::Object(_) => doc.get(name.as_str()),
            _ => None,
        },
        PathSegment::Index(n) => match doc {
            JsonValue::Array(items) => {
                proof {
                    lemma_array_view(*items);
                }
                if *n < items.len() {
                    Some(&items[*n])
                } else {
                    None
                }
            },
            _ => None,
        },
        PathSegment::Wildcard => match doc {
            JsonValue::Array(items) => {
                proof {
                    lemma_array_view(*items);
                }
                if items.len() > 0 {
                    Some(&items[0])
                } else {
                    None
                }
            },
            _ => None,
        },
    }
}

/// What `path` addresses in `json`; `None` is "not found".
pub fn extract_json_path<'a>(json: &'a JsonValue, path: &str) -> (r: Option<&'a JsonValue>)
    ensures
        match r {
            Some(v) => query(json@, path@) == Some(v@),
            None => query(json@, path@) is None,
        },
{
    let segments = match split_path(path) {
        Some(segments) => segments,
        None => {
            return None;
        },
    };
    let ghost all = segments_view(segments@);
    let mut current: &'a JsonValue = json;
    let mut i: usize = 0;
    assert(all.skip(0) == all);
    while i < segments.len()
        invariant
            i <= segments.len(),
            all == segments_view(segments@),
            path_segments(path@) == Some(all),
            resolve(json@, all) == resolve(current@, all.skip(i as int)),
        decreases segments.len() - i,
    {
        assert(all.skip(i as int).drop_first() == all.skip(i + 1));
        match step_into(current, &segments[i]) {
            Some(next) => {
                current = next;
            },
            None => {
                return None;
            },
        }
        i += 1;
    }
    Some(current)
}

/// A wildcard leads where the index zero leads: to the first item of an
/// array, and never to a later one.
pub proof fn lemma_wildcard_is_first(doc: JsonModel, rest: Seq<SegmentModel>)
    ensures
        resolve(doc, seq![SegmentModel::Wildcard] + rest) == resolve(
            doc,
            seq![SegmentModel::Index(0)] + rest,
        ),
        doc is Array && doc->Array_0.len() > 0 ==> resolve(
            doc,
            seq![SegmentModel::Wildcard] + rest,
        ) == resolve(doc->Array_0[0], rest),
{
    let wild = seq![SegmentModel::Wildcard] + rest;
    let zero = seq![SegmentModel::Index(0)] + rest;
    assert(wild.drop_first() == rest);
    assert(zero.drop_first() == rest);
}

/// The empty path addresses the whole document.
pub proof fn lemma_empty_path(doc: JsonModel)
    ensures
        query(doc, Seq::empty()) == Some(doc),
{
}

/// Two path texts are the same but for wildcards: where they differ, the
/// first holds `*` and the second `0`, alone between brackets.
pub open spec fn differ_by_wildcards(a: Seq<char>, b: Seq<char>) -> bool {
    &&& a.len() == b.len()
    &&& forall|i: int|
        0 <= i < a.len() && #[trigger] a[i] != b[i] ==> {
            &&& a[i] == '*'
            &&& b[i] == '0'
            &&& 0 < i
            &&& i + 1 < a.len()
            &&& a[i - 1] == '['
            &&& b[i - 1] == '['
            &&& a[i + 1] == ']'
            &&& b[i + 1] == ']'
        }
}

/// A list of segments with the index zero in the place of each wildcard.
pub open spec fn wildcards_as_zero(segments: Seq<SegmentModel>) -> Seq<SegmentModel> {
    Seq::new(
        segments.len(),
        |i: int|
            if segments[i] is Wildcard {
                SegmentModel::Index(0)
            } else {
                segments[i]
            },
    )
}

/// The segments of a path, if it has any, with the index zero in the place
/// of each wildcard.
pub open spec fn parsed_as_zero(segments: Option<Seq<SegmentModel>>) -> Option<Seq<SegmentModel>> {
    match segments {
        Some(list) => Some(wildcards_as_zero(list)),
        None => None,
    }
}

/// Words end at the same place in two texts that differ by wildcards.
proof fn lemma_word_end_agrees(a: Seq<char>, b: Seq<char>, from: int, in_bracket: bool)
    requires
        differ_by_wildcards(a, b),
        0 <= from <= a.len(),
    ensures
        word_end(a, from, in_bracket) == word_end(b, from, in_bracket),
    decreases a.len() - from,
{
    if from < a.len() {
        lemma_word_end_agrees(a, b, from + 1, in_bracket);
    }
}

/// Wildcards lead where the index zero leads, for a whole list of
/// segments.
pub proof fn lemma_resolve_wildcards_as_zero(doc: JsonModel, segments: Seq<SegmentModel>)
    ensures
        resolve(doc, segments) == resolve(doc, wildcards_as_zero(segments)),
    decreases segments.len(),
{
    if segments.len() > 0 {
        let zeroed = wildcards_as_zero(segments);
        assert(zeroed.drop_first() == wildcards_as_zero(segments.drop_first()));
        match step(doc, segments[0]) {
            Some(next) => {
                lemma_resolve_wildcards_as_zero(next, segments.drop_first());
            },
            None => {},
        }
    }
}

/// Two texts that differ by wildcards have the same segments, but for the
/// index zero in the place of a wildcard.
proof fn lemma_segments_agree(a: Seq<char>, b: Seq<char>, from: int, in_bracket: bool)
    requires
        differ_by_wildcards(a, b),
        0 <= from <= a.len(),
    ensures
        parsed_as_zero(segments_from(a, from, in_bracket)) == parsed_as_zero(
            segments_from(b, from, in_bracket),
        ),
    decreases a.len() - from,
{
    if from < a.len() {
        lemma_word_end_agrees(a, b, from, in_bracket);
        lemma_word_end(a, from, in_bracket);
        lemma_word_end(b, from, in_bracket);
        let stop = word_end(a, from, in_bracket);
        let word_a = a.subrange(from, stop);
        let word_b = b.subrange(from, stop);
        let starred = from < stop && a[from] != b[from];
        assert forall|i: int| from < i < stop implies a[i] == b[i] by {}
        if starred {
            assert(stop == from + 1);
            assert(word_a =~= seq!['*']);
            assert(index_value(word_b) == Some(0nat)) by {
                reveal_with_fuel(crate::text::digits_value, 2);
            }
        } else {
            assert(word_a =~= word_b);
        }
        if stop < a.len() {
            assert(a[stop] == b[stop]);
            let opens = a[stop] == '[';
            let closes = a[stop] == ']';
            lemma_segments_agree(a, b, stop + 1, if closes {
                false
            } else {
                opens
            });
            let rest_a = segments_from(a, stop + 1, if closes {
                false
            } else {
                opens
            });
            let rest_b = segments_from(b, stop + 1, if closes {
                false
            } else {
                opens
            });
            if rest_a is Some {
                let tail_a = rest_a->0;
                let tail_b = rest_b->0;
                assert(wildcards_as_zero(tail_a).len() == tail_a.len());
                if closes {
                    if bracket_segment(word_a) is Some {
                        let first_a = bracket_segment(word_a)->0;
                        let first_b = bracket_segment(word_b)->0;
                        assert(wildcards_as_zero(seq![first_a] + tail_a) =~= wildcards_as_zero(
                            seq![first_b] + tail_b,
                        )) by {
                            assert forall|k: int| 0 <= k < tail_a.len() implies wildcards_as_zero(
                                tail_a,
                            )[k] == wildcards_as_zero(tail_b)[k] by {}
                            assert forall|k: int| 0 <= k < 1 + tail_a.len() implies (
                            #[trigger] wildcards_as_zero(seq![first_a] + tail_a)[k])
                                == wildcards_as_zero(seq![first_b] + tail_b)[k] by {
                                if k > 0 {
                                    assert(wildcards_as_zero(tail_a)[k - 1] == wildcards_as_zero(
                                        tail_b,
                                    )[k - 1]);
                                }
                            }
                        }
                    }
                } else {
                    assert(wildcards_as_zero(after_property(word_a, tail_a)) =~= wildcards_as_zero(
                        after_property(word_b, tail_b),
                    )) by {
                        let whole_a = after_property(word_a, tail_a);
                        let whole_b = after_property(word_b, tail_b);
                        let shift = whole_a.len() - tail_a.len();
                        assert forall|k: int| 0 <= k < whole_a.len() implies (
                        #[trigger] wildcards_as_zero(whole_a)[k]) == wildcards_as_zero(
                            whole_b,
                        )[k] by {
                            if k >= shift {
                                assert(wildcards_as_zero(tail_a)[k - shift] == wildcards_as_zero(
                                    tail_b,
                                )[k - shift]);
                            }
                        }
                    }
                }
            }
        }
    }
}

/// A wildcard in a path text selects what the index zero selects: for any
/// text before and behind it, the path with `[*]` addresses what the path
/// with `[0]` in its place addresses, in every document.
pub proof fn lemma_wildcard_text_is_zero(doc: JsonModel, before: Seq<char>, behind: Seq<char>)
    ensures
        query(doc, before + seq!['[', '*', ']'] + behind) == query(
            doc,
            before + seq!['[', '0', ']'] + behind,
        ),
{
    let a = before + seq!['[', '*', ']'] + behind;
    let b = before + seq!['[', '0', ']'] + behind;
    let at = before.len() as int;
    assert(differ_by_wildcards(a, b)) by {
        assert forall|i: int| 0 <= i < a.len() && #[trigger] a[i] != b[i] implies i == at + 1 by {
            if i < at {
            } else if i >= at + 3 {
            }
        }
    }
    lemma_segments_agree(a, b, 0, false);
    match path_segments(a) {
        Some(segments) => {
            lemma_resolve_wildcards_as_zero(doc, segments);
            lemma_resolve_wildcards_as_zero(doc, path_segments(b)->0);
        },
        None => {},
    }
}

} // verus!
