//! Searching a text for a regular expression, with the `regex` crate.

use regex::Regex;
use vstd::prelude::*;

verus! {

/// What the `regex` crate finds when it searches `haystack` for `pattern`:
/// the capture groups of the leftmost match, group 0 being the whole match
/// and every other group standing at the place of its opening bracket, with
/// `None` for a group that took no part in the match. The whole is `None`
/// where nothing matches or where the crate rejects the pattern.
pub uninterp spec fn regex_captures(pattern: Seq<char>, haystack: Seq<char>) -> Option<
    Seq<Option<Seq<char>>>,
>;

/// The views of capture groups.
pub open spec fn groups_view(groups: Seq<Option<String>>) -> Seq<Option<Seq<char>>> {
    Seq::new(
        groups.len(),
        |i: int|
            match groups[i] {
                Some(text) => Some(text@),
                None => None,
            },
    )
}

/// The view of a search result.
pub open spec fn captures_view(found: Option<Vec<Option<String>>>) -> Option<
    Seq<Option<Seq<char>>>,
> {
    match found {
        Some(groups) => Some(groups_view(groups@)),
        None => None,
    }
}

/// Compiles `pattern` with `Regex::new` and searches `haystack` with
/// `Regex::captures`. The result holds, for each capture group of the
/// match, the text that `Match::as_str` gives for it; it is `None` where
/// `Regex::new` fails or `Regex::captures` finds nothing. What is claimed is
/// that the result depends on `pattern` and `haystack` alone.
#[verifier::external_body]
pub(crate) fn captures(pattern: &str, haystack: &str) -> (found: Option<Vec<Option<String>>>)
    ensures
        captures_view(found) == regex_captures(pattern@, haystack@),
{
    match Regex::new(pattern) {
        Ok(regex) => regex.captures(haystack).map(
            |found| found.iter().map(|group| group.map(|m| String::from(m.as_str()))).collect(),
        ),
        Err(_) => None,
    }
}

} // verus!
