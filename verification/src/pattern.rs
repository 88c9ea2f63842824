//! Matching a text against a regular expression, which is the `regex` crate's work.

use vstd::prelude::*;

verus! {

/// What the capture group `group` holds in the leftmost match of the regular
/// expression `pattern` in `text`; `None` where `pattern` is no regular
/// expression, where `text` has no match, or where the group took no part in it.
pub uninterp spec fn captured(pattern: Seq<char>, text: Seq<char>, group: nat) -> Option<Seq<char>>;

/// `regex::Regex::new`, `Regex::captures` and `Captures::get`: compiles
/// `pattern`, searches `text` for its leftmost match and hands back the text
/// of one capture group. The result is a function of the arguments alone.
#[verifier::external_body]
pub(crate) fn capture(pattern: &str, text: &str, group: usize) -> (r: Option<String>)
    ensures
        r.deep_view() == captured(pattern@, text@, group as nat),
{
    let compiled = regex::Regex::new(pattern).ok()?;
    compiled.captures(text)?.get(group).map(|m| m.as_str().to_string())
}

} // verus!
