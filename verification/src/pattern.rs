//! Regular-expression searches, answered by the `regex` crate.
use crate::models::opt_view;
use vstd::prelude::*;

verus! {

/// The text of capture group `group` in the leftmost-first match of
/// `pattern` in `text`; `None` when the pattern does not compile, nothing
/// matches, or the group took no part in the match.
pub uninterp spec fn regex_group(pattern: Seq<char>, text: Seq<char>, group: usize) -> Option<Seq<char>>;

/// For each successive non-overlapping match of `pattern` in `text`, the
/// texts of its capture groups 0, 1, ... (`None` for a group that took no
/// part); empty when the pattern does not compile.
pub uninterp spec fn regex_matches(pattern: Seq<char>, text: Seq<char>) -> Seq<Seq<Option<Seq<char>>>>;

pub open spec fn groups_view(v: Seq<Option<String>>) -> Seq<Option<Seq<char>>> {
    v.map_values(|o: Option<String>| opt_view(o))
}

/// `Regex::new(pattern).ok()?.captures(text)?.get(group)`, as text.
#[verifier::external_body]
pub(crate) fn capture_group(pattern: &str, text: &str, group: usize) -> (r: Option<String>)
    ensures
        opt_view(r) == regex_group(pattern@, text@, group),
{
    regex::Regex::new(pattern).ok().and_then(|re| re.captures(text)).and_then(|c| c.get(group)).map(|m| m.as_str().to_string())
}

/// `Regex::new(pattern)?.captures_iter(text)`, each match by the texts of
/// its groups.
#[verifier::external_body]
pub(crate) fn all_captures(pattern: &str, text: &str) -> (r: Vec<Vec<Option<String>>>)
    ensures
        r@.map_values(|c: Vec<Option<String>>| groups_view(c@)) == regex_matches(pattern@, text@),
{
    match regex::Regex::new(pattern) {
        Ok(re) => re.captures_iter(text).map(|c| c.iter().map(|g| g.map(|m| m.as_str().to_string())).collect()).collect(),
        Err(_) => Vec::new(),
    }
}

} // verus!
