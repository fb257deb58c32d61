//! Regular-expression matching, done by the `regex` crate.
//!
//! What a match yields takes pages to state, so each kind of result gets
//! a name; every wrapper compiles its pattern afresh with
//! `regex::Regex::new`, and a pattern that does not compile matches
//! nothing.

use vstd::prelude::*;

use crate::text::opt_view;

verus! {

/// `regex::Regex::new(pattern)` then `captures(s)`: `None` when the
/// pattern does not compile or does not match, else the text of group 1
/// if that group took part.
pub uninterp spec fn first_group(pattern: Seq<char>, s: Seq<char>) -> Option<Option<Seq<char>>>;

/// `regex::Regex::new(pattern)` then `captures_iter(s)`: for every match,
/// in order, the text of groups 1 and 2 where they took part; empty when
/// the pattern does not compile.
pub uninterp spec fn group_pairs(pattern: Seq<char>, s: Seq<char>) -> Seq<(Option<Seq<char>>, Option<Seq<char>>)>;

/// `regex::Regex::new(pattern)` then `replace_all(s, "")`: `s` with every
/// match removed; `s` itself when the pattern does not compile.
pub uninterp spec fn matches_removed(pattern: Seq<char>, s: Seq<char>) -> Seq<char>;

/// Compiles `pattern` with `regex::Regex::new` and returns group 1 of the
/// first match in `s`.
#[verifier::external_body]
pub(crate) fn regex_first_group(pattern: &str, s: &str) -> (r: Option<Option<String>>)
    ensures
        match r {
            Some(g) => first_group(pattern@, s@) == Some(opt_view(g)),
            None => first_group(pattern@, s@) is None,
        },
{
    let re = regex::Regex::new(pattern).ok()?;
    re.captures(s).map(|c| c.get(1).map(|m| m.as_str().to_string()))
}

/// Compiles `pattern` with `regex::Regex::new` and lists groups 1 and 2
/// of every match of `captures_iter(s)`.
#[verifier::external_body]
pub(crate) fn regex_group_pairs(pattern: &str, s: &str) -> (r: Vec<(Option<String>, Option<String>)>)
    ensures
        r@.map_values(|p: (Option<String>, Option<String>)| (opt_view(p.0), opt_view(p.1)))
            == group_pairs(pattern@, s@),
{
    let Ok(re) = regex::Regex::new(pattern) else {
        return Vec::new();
    };
    re.captures_iter(s).map(|c| (c.get(1).map(|m| m.as_str().to_string()), c.get(2).map(|m| m.as_str().to_string()))).collect()
}

/// Compiles `pattern` with `regex::Regex::new` and removes every match
/// from `s` with `replace_all`.
#[verifier::external_body]
pub(crate) fn regex_remove_all(pattern: &str, s: &str) -> (r: String)
    ensures
        r@ == matches_removed(pattern@, s@),
{
    match regex::Regex::new(pattern) {
        Ok(re) => re.replace_all(s, "").into_owned(),
        Err(_) => s.to_string(),
    }
}

} // verus!
