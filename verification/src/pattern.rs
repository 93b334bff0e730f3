//! Regular expressions, matched by the `regex` crate.
//!
//! The patterns of this library are matched by `regex`, not by code of its
//! own. What `regex` finds is not spelled out here: it has a name,
//! `regex_groups`, and the functions that match a pattern state their
//! results over that name. What is done with the groups is verified.

use vstd::prelude::*;

verus! {

/// What the `regex` crate finds for `pattern` in `text`: `None` when
/// `pattern` is no regular expression that `regex` compiles or when it
/// matches nowhere in `text`; else the capture groups of the leftmost match.
/// Group 0 is the whole match, the others follow in the order of their
/// opening parentheses; a group that took no part in the match is `None`.
pub uninterp spec fn regex_groups(pattern: Seq<char>, text: Seq<char>) -> Option<
    Seq<Option<Seq<char>>>,
>;

/// Compiles `pattern` with `Regex::new` of `regex`, searches `text` with
/// `Regex::captures`, and hands out the text of each group of
/// `Captures::iter`, as `Match::as_str` gives it. The contract gives the
/// result its name; it claims that the result depends on the two strings
/// alone, and nothing about what it holds.
#[verifier::external_body]
pub(crate) fn captures(pattern: &str, text: &str) -> (groups: Option<Vec<Option<String>>>)
    ensures
        groups.deep_view() == regex_groups(pattern@, text@),
{
    let re = match regex::Regex::new(pattern) {
        Ok(re) => re,
        Err(_) => return None,
    };
    let caps = re.captures(text)?;
    Some(caps.iter().map(|m| m.map(|m| m.as_str().to_owned())).collect())
}

/// The first and second group of a match of a pattern with exactly two
/// groups, where both took part in the match.
pub open spec fn two_groups(groups: Option<Seq<Option<Seq<char>>>>) -> Option<
    (Seq<char>, Seq<char>),
> {
    match groups {
        Some(g) => if g.len() == 3 && g[1] is Some && g[2] is Some {
            Some((g[1]->0, g[2]->0))
        } else {
            None
        },
        None => None,
    }
}

/// The two groups of `groups`, where it holds a whole match and two groups
/// that took part in it.
pub fn take_two_groups(groups: Option<Vec<Option<String>>>) -> (parts: Option<(String, String)>)
    ensures
        parts.deep_view() == two_groups(groups.deep_view()),
{
    match groups {
        Some(mut g) => {
            if g.len() != 3 {
                return None;
            }
            let second = g.pop().unwrap();
            let first = g.pop().unwrap();
            match (first, second) {
                (Some(a), Some(b)) => Some((a, b)),
                _ => None,
            }
        },
        None => None,
    }
}

/// The two groups that `pattern` captures in `text`.
pub fn match_two_groups(pattern: &str, text: &str) -> (parts: Option<(String, String)>)
    ensures
        parts.deep_view() == two_groups(regex_groups(pattern@, text@)),
{
    take_two_groups(captures(pattern, text))
}

} // verus!
