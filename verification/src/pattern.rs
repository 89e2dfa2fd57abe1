//! Regular expressions of the launcher, compiled and run by the `regex` crate.

use crate::text::views;
use regex::Regex;
use vstd::prelude::*;

verus! {

#[verifier::external_type_specification]
#[verifier::external_body]
pub struct ExRegex(Regex);

/// Whether `Regex::new` compiles a pattern.
pub uninterp spec fn regex_compiles(pattern: Seq<char>) -> bool;

/// The pattern a `Regex` was compiled from (what `Regex::as_str` returns).
pub uninterp spec fn regex_source(r: Regex) -> Seq<char>;

/// Whether a pattern matches somewhere in a text.
pub uninterp spec fn regex_matches(pattern: Seq<char>, text: Seq<char>) -> bool;

/// The texts of the successive non-overlapping matches of a pattern in a text.
pub uninterp spec fn regex_match_texts(pattern: Seq<char>, text: Seq<char>) -> Seq<Seq<char>>;

/// The text of a capture group at the first match of a pattern in a text; nothing when
/// the pattern does not match or the group took no part in the match.
pub uninterp spec fn regex_group_text(pattern: Seq<char>, text: Seq<char>, group: nat) -> Option<
    Seq<char>,
>;

/// `Regex::new(pattern)`: the compiled pattern, when it is a valid regular expression.
#[verifier::external_body]
fn regex_new(pattern: &str) -> (r: Option<Regex>)
    ensures
        r is Some <==> regex_compiles(pattern@),
        r matches Some(re) ==> regex_source(re) == pattern@,
{
    match Regex::new(pattern) {
        Ok(re) => Some(re),
        Err(_) => None,
    }
}

/// `Regex::is_match(text)`: whether the regex matches somewhere in the text.
#[verifier::external_body]
fn regex_test(re: &Regex, text: &str) -> (r: bool)
    ensures
        r == regex_matches(regex_source(*re), text@),
{
    re.is_match(text)
}

/// `Regex::find_iter(text)`, each match taken as its text.
#[verifier::external_body]
fn regex_find_iter(re: &Regex, text: &str) -> (r: Vec<String>)
    ensures
        views(r@) == regex_match_texts(regex_source(*re), text@),
{
    re.find_iter(text).map(|m| m.as_str().to_string()).collect()
}

/// `Regex::captures(text)` and the group's text in them.
#[verifier::external_body]
fn regex_captures_group(re: &Regex, text: &str, group: usize) -> (r: Option<String>)
    ensures
        match regex_group_text(regex_source(*re), text@, group as nat) {
            Some(t) => r matches Some(s) && s@ == t,
            None => r is None,
        },
{
    match re.captures(text) {
        Some(c) => c.get(group).map(|m| m.as_str().to_string()),
        None => None,
    }
}

/// Whether a pattern matches somewhere in a text; nothing when it does not compile.
pub open spec fn regex_is_match(pattern: Seq<char>, text: Seq<char>) -> Option<bool> {
    if regex_compiles(pattern) {
        Some(regex_matches(pattern, text))
    } else {
        None
    }
}

/// The matched texts of a pattern in a text, in order; nothing when it does not compile.
pub open spec fn regex_find_all(pattern: Seq<char>, text: Seq<char>) -> Option<Seq<Seq<char>>> {
    if regex_compiles(pattern) {
        Some(regex_match_texts(pattern, text))
    } else {
        None
    }
}

/// A capture group's text at the first match; nothing when the pattern does not compile,
/// `Some(None)` when there is no match or the group took no part.
pub open spec fn regex_capture(pattern: Seq<char>, text: Seq<char>, group: nat) -> Option<
    Option<Seq<char>>,
> {
    if regex_compiles(pattern) {
        Some(regex_group_text(pattern, text, group))
    } else {
        None
    }
}

/// Whether `pattern` matches somewhere in `text`.
pub(crate) fn pattern_matches(pattern: &str, text: &str) -> (r: Option<bool>)
    ensures
        r == regex_is_match(pattern@, text@),
{
    match regex_new(pattern) {
        Some(re) => Some(regex_test(&re, text)),
        None => None,
    }
}

/// The texts of the matches of `pattern` in `text`.
pub(crate) fn find_all_matches(pattern: &str, text: &str) -> (r: Option<Vec<String>>)
    ensures
        match regex_find_all(pattern@, text@) {
            Some(ms) => r matches Some(v) && v.len() == ms.len() && forall|i: int|
                0 <= i < v.len() ==> (#[trigger] v@[i])@ == ms[i],
            None => r is None,
        },
{
    match regex_new(pattern) {
        Some(re) => {
            let v = regex_find_iter(&re, text);
            assert(views(v@).len() == v.len());
            assert forall|i: int| 0 <= i < v.len() implies (#[trigger] v@[i])@ == regex_match_texts(
                pattern@,
                text@,
            )[i] by {
                assert(views(v@)[i] == v@[i]@);
            }
            Some(v)
        },
        None => None,
    }
}

/// The text of capture group `group` at the first match of `pattern` in `text`.
pub(crate) fn capture_group(pattern: &str, text: &str, group: usize) -> (r: Option<Option<String>>)
    ensures
        match regex_capture(pattern@, text@, group as nat) {
            None => r is None,
            Some(None) => r == Some(None::<String>),
            Some(Some(t)) => r matches Some(Some(s)) && s@ == t,
        },
{
    match regex_new(pattern) {
        Some(re) => Some(regex_captures_group(&re, text, group)),
        None => None,
    }
}

} // verus!
