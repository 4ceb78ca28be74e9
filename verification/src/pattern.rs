//! Searching text with regular expressions.
//!
//! The search itself is the `regex` crate's. Its outcome is a function of
//! the expression and the text alone; the two names below stand for it, and
//! everything that is built on a search is specified over them.

use vstd::prelude::*;

verus! {

/// The groups of the leftmost match of `pattern` in `text`: group 0 is the
/// whole match, the others follow in the order of their opening
/// parentheses, and a group that took no part in the match is `None`.
/// The result is `None` where `text` holds no match, or where `pattern` is
/// not an expression the engine accepts.
pub uninterp spec fn regex_first(pattern: Seq<char>, text: Seq<char>) -> Option<
    Seq<Option<Seq<char>>>,
>;

/// The groups of every match of `pattern` in `text`, from left to right,
/// each match beginning where the one before it ended or later; one entry
/// per match, laid out as in [`regex_first`]. The result is empty where
/// `pattern` is not an expression the engine accepts.
pub uninterp spec fn regex_all(pattern: Seq<char>, text: Seq<char>) -> Seq<Seq<Option<Seq<char>>>>;

/// Runs `regex::Regex::captures` for `pattern` on `text` and copies each
/// group's text out of the match.
///
/// Trusted: the result is what `regex_first` names, which is to say that
/// the engine gives the same answer whenever it is asked the same question.
/// An expression that `regex::Regex::new` rejects counts as no match.
#[verifier::external_body]
pub(crate) fn first_match(pattern: &str, text: &str) -> (found: Option<Vec<Option<String>>>)
    ensures
        found.deep_view() == regex_first(pattern@, text@),
{
    match regex::Regex::new(pattern) {
        Ok(re) => re.captures(text).map(
            |groups| groups.iter().map(|g| g.map(|m| m.as_str().to_string())).collect(),
        ),
        Err(_) => None,
    }
}

/// Runs `regex::Regex::captures_iter` for `pattern` on `text` and copies
/// each group's text out of every match.
///
/// Trusted: the result is what `regex_all` names, which is to say that the
/// engine gives the same answer whenever it is asked the same question.
/// An expression that `regex::Regex::new` rejects counts as no match.
#[verifier::external_body]
pub(crate) fn all_matches(pattern: &str, text: &str) -> (found: Vec<Vec<Option<String>>>)
    ensures
        found.deep_view() == regex_all(pattern@, text@),
{
    match regex::Regex::new(pattern) {
        Ok(re) => re.captures_iter(text).map(
            |groups| groups.iter().map(|g| g.map(|m| m.as_str().to_string())).collect(),
        ).collect(),
        Err(_) => Vec::new(),
    }
}

/// The text of group `index` of a match; empty where the match has no such
/// group or the group took no part.
pub open spec fn group_text(groups: Seq<Option<Seq<char>>>, index: int) -> Seq<char> {
    if 0 <= index < groups.len() {
        match groups[index] {
            Some(text) => text,
            None => Seq::empty(),
        }
    } else {
        Seq::empty()
    }
}

/// The text of group `index` of a match, or the empty text.
pub fn group_str(groups: &Vec<Option<String>>, index: usize) -> (text: &str)
    ensures
        text@ == group_text(groups.deep_view(), index as int),
{
    proof {
        reveal_strlit("");
    }
    if index < groups.len() {
        match &groups[index] {
            Some(text) => text.as_str(),
            None => "",
        }
    } else {
        ""
    }
}

} // verus!
