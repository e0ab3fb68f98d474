//! Regular expressions, matched by the `regex` crate.

use vstd::prelude::*;

verus! {

/// What `regex` answers for an expression and a text: whether the expression
/// matches somewhere in the text, or `None` where the expression does not
/// compile.
pub uninterp spec fn regex_match(pattern: Seq<char>, text: Seq<char>) -> Option<bool>;

/// `pattern` compiles and matches somewhere in `text`.
pub open spec fn matches_pattern(pattern: Seq<char>, text: Seq<char>) -> bool {
    regex_match(pattern, text) == Some(true)
}

/// Compiles `pattern` with `regex::Regex::new` and asks `Regex::is_match`
/// whether it matches anywhere in `text`. Nothing is proved of the answer:
/// the contract only gives it its name, `regex_match`, which says that the
/// answer depends on the two arguments alone.
#[verifier::external_body]
pub(crate) fn regex_is_match(pattern: &str, text: &str) -> (r: Option<bool>)
    ensures
        r == regex_match(pattern@, text@),
{
    match regex::Regex::new(pattern) {
        Ok(re) => Some(re.is_match(text)),
        Err(_) => None,
    }
}

/// What `regex` finds for an expression in a text: the text of the first
/// match, or `None` where there is no match or the expression does not
/// compile.
pub uninterp spec fn regex_found(pattern: Seq<char>, text: Seq<char>) -> Option<Seq<char>>;

/// Compiles `pattern` with `regex::Regex::new` and hands out the text of the
/// match that `Regex::find` returns for `text`. The contract gives the result
/// its name, `regex_found`, and claims no more.
#[verifier::external_body]
pub(crate) fn regex_find(pattern: &str, text: &str) -> (r: Option<String>)
    ensures
        r.deep_view() == regex_found(pattern@, text@),
{
    match regex::Regex::new(pattern) {
        Ok(re) => re.find(text).map(|m| m.as_str().to_string()),
        Err(_) => None,
    }
}

/// What `regex` captures for an expression in a text: for the first match,
/// the text of each group, the whole match being group 0, and `None` for a
/// group that took no part in the match. `None` where there is no match or
/// the expression does not compile.
pub uninterp spec fn regex_groups(pattern: Seq<char>, text: Seq<char>) -> Option<
    Seq<Option<Seq<char>>>,
>;

/// Compiles `pattern` with `regex::Regex::new` and hands out the text of each
/// group of what `Regex::captures` returns for `text`. The contract gives the
/// result its name, `regex_groups`, and claims no more.
#[verifier::external_body]
pub(crate) fn regex_captures(pattern: &str, text: &str) -> (r: Option<Vec<Option<String>>>)
    ensures
        r.deep_view() == regex_groups(pattern@, text@),
{
    match regex::Regex::new(pattern) {
        Ok(re) => re.captures(text).map(
            |caps| caps.iter().map(|group| group.map(|m| m.as_str().to_string())).collect(),
        ),
        Err(_) => None,
    }
}

/// The text of group `i` of `groups`, where there is such a group and it took
/// part in the match.
pub open spec fn group_text(groups: Seq<Option<Seq<char>>>, i: int) -> Option<Seq<char>> {
    if 0 <= i < groups.len() {
        groups[i]
    } else {
        None
    }
}

/// Whether `pattern` compiles and matches somewhere in `text`.
pub fn is_match(pattern: &str, text: &str) -> (r: bool)
    ensures
        r == matches_pattern(pattern@, text@),
{
    match regex_is_match(pattern, text) {
        Some(found) => found,
        None => false,
    }
}

} // verus!
