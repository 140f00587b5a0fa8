//! Choosing the descriptors of a run among the files that were found.

use vstd::prelude::*;
use std::path::PathBuf;

verus! {

/// `glob::Pattern`, carried through as it is.
#[verifier::external_type_specification]
#[verifier::external_body]
pub struct ExPattern(glob::Pattern);

/// Whether `matches_path` of a `glob::Pattern` holds of a path.
pub uninterp spec fn glob_matches(pattern: glob::Pattern, path: PathBuf) -> bool;

/// Whether a path stands at or before another in the order of
/// `std::path::PathBuf`.
pub uninterp spec fn path_at_most(a: PathBuf, b: PathBuf) -> bool;

/// `glob::Pattern::new`: the compiled pattern, and none for a text that is
/// no pattern. Which texts are patterns depends on what the platform takes
/// for a separator.
#[verifier::external_body]
fn compile_pattern(text: &str) -> (r: Option<glob::Pattern>)
{
    glob::Pattern::new(text).ok()
}

/// `matches_path` of a `glob::Pattern`.
#[verifier::external_body]
fn pattern_matches(pattern: &glob::Pattern, path: &PathBuf) -> (r: bool)
    ensures
        r == glob_matches(*pattern, *path),
{
    pattern.matches_path(path)
}

/// `clone` of a `std::path::PathBuf`: the same path.
#[verifier::external_body]
fn copy_path(path: &PathBuf) -> (r: PathBuf)
    ensures
        r == *path,
{
    path.clone()
}

/// `sort` of a slice of `std::path::PathBuf`: the same paths, each at or
/// before those behind it.
#[verifier::external_body]
fn sort_paths(paths: &mut Vec<PathBuf>)
    ensures
        final(paths)@.to_multiset() == old(paths)@.to_multiset(),
        forall|i: int, j: int|
            0 <= i < j < final(paths)@.len() ==> path_at_most(
                #[trigger] final(paths)@[i],
                #[trigger] final(paths)@[j],
            ),
{
    paths.sort()
}

/// The paths stand in ascending order.
pub open spec fn ascending(paths: Seq<PathBuf>) -> bool {
    forall|i: int, j: int|
        0 <= i < j < paths.len() ==> path_at_most(#[trigger] paths[i], #[trigger] paths[j])
}

/// Whether a path is chosen: it matches the filter, where there is one,
/// and does not match the exclusion, where there is one.
pub open spec fn is_chosen(
    path: PathBuf,
    filter: Option<glob::Pattern>,
    exclude: Option<glob::Pattern>,
) -> bool {
    &&& filter matches Some(pattern) ==> glob_matches(pattern, path)
    &&& exclude matches Some(pattern) ==> !glob_matches(pattern, path)
}

/// The chosen ones among the first `count` paths, in the order in which
/// they were found.
pub open spec fn chosen(
    found: Seq<PathBuf>,
    count: int,
    filter: Option<glob::Pattern>,
    exclude: Option<glob::Pattern>,
) -> Seq<PathBuf>
    decreases count,
{
    if count <= 0 {
        Seq::empty()
    } else if is_chosen(found[count - 1], filter, exclude) {
        chosen(found, count - 1, filter, exclude).push(found[count - 1])
    } else {
        chosen(found, count - 1, filter, exclude)
    }
}

/// The files of a run under compiled patterns: exactly the found paths
/// that match the filter and do not match the exclusion, each as often as
/// it was found, in ascending order.
pub fn select_with(
    found: &Vec<PathBuf>,
    filter: &Option<glob::Pattern>,
    exclude: &Option<glob::Pattern>,
) -> (r: Vec<PathBuf>)
    ensures
        r@.to_multiset() == chosen(found@, found@.len() as int, *filter, *exclude).to_multiset(),
        ascending(r@),
{
    let mut kept: Vec<PathBuf> = Vec::new();
    let mut i: usize = 0;
    while i < found.len()
        invariant
            i <= found.len(),
            kept@ == chosen(found@, i as int, *filter, *exclude),
        decreases found.len() - i,
    {
        let passes = match filter {
            Some(pattern) => pattern_matches(pattern, &found[i]),
            None => true,
        };
        let excluded = match exclude {
            Some(pattern) => pattern_matches(pattern, &found[i]),
            None => false,
        };
        if passes && !excluded {
            kept.push(copy_path(&found[i]));
        }
        i += 1;
    }
    sort_paths(&mut kept);
    kept
}

/// The files of a run: none where a given pattern does not compile; else
/// the found paths that match the filter and do not match the exclusion, in
/// ascending order. Without patterns these are all found paths.
pub fn select_files(found: Vec<PathBuf>, filter: Option<&str>, exclude: Option<&str>) -> (r: Option<
    Vec<PathBuf>,
>)
    ensures
        filter is None && exclude is None ==> r is Some,
        r matches Some(files) ==> ascending(files@) && exists|
            compiled_filter: Option<glob::Pattern>,
            compiled_exclude: Option<glob::Pattern>,
        |
            {
                &&& compiled_filter is Some <==> filter is Some
                &&& compiled_exclude is Some <==> exclude is Some
                &&& files@.to_multiset() == #[trigger] chosen(
                    found@,
                    found@.len() as int,
                    compiled_filter,
                    compiled_exclude,
                ).to_multiset()
            },
{
    let compiled_filter = match filter {
        Some(text) => match compile_pattern(text) {
            Some(pattern) => Some(pattern),
            None => {
                return None;
            },
        },
        None => None,
    };
    let compiled_exclude = match exclude {
        Some(text) => match compile_pattern(text) {
            Some(pattern) => Some(pattern),
            None => {
                return None;
            },
        },
        None => None,
    };
    Some(select_with(&found, &compiled_filter, &compiled_exclude))
}

/// Without patterns every found path is chosen.
pub proof fn lemma_all_chosen_without_patterns(found: Seq<PathBuf>, count: int)
    requires
        0 <= count <= found.len(),
    ensures
        chosen(found, count, None, None) == found.take(count),
    decreases count,
{
    if count > 0 {
        lemma_all_chosen_without_patterns(found, count - 1);
        assert(found.take(count - 1).push(found[count - 1]) == found.take(count));
    }
}

} // verus!
