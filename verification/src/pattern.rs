//! Searching text with regular expressions.

use crate::contact::opt_text;
use regex::Regex;
use vstd::prelude::*;

verus! {

/// What the `regex` crate finds for capture group `group` of `pattern` in its
/// first match in `text`: the text of that group, or `None` where `pattern`
/// is no regular expression, nothing in `text` matches it, or the group took
/// no part in the match.
pub uninterp spec fn regex_group(pattern: Seq<char>, text: Seq<char>, group: nat) -> Option<
    Seq<char>,
>;

/// The text of capture group `group` in the first match of `pattern` in `text`.
///
/// Trusted: compiles `pattern` with `regex::Regex::new`, searches `text` with
/// `Regex::captures` and reads the group with `Captures::get` and
/// `Match::as_str`. The contract only gives the outcome its name,
/// [`regex_group`]: the crate documents the search as a function of the
/// pattern and the haystack.
#[verifier::external_body]
pub(crate) fn capture_group(pattern: &str, text: &str, group: usize) -> (r: Option<String>)
    ensures
        opt_text(r) == regex_group(pattern@, text@, group as nat),
{
    let found = Regex::new(pattern).ok()?.captures(text)?;
    found.get(group).map(|m| m.as_str().to_string())
}

} // verus!
