//! Searching text with a regular expression, through the `regex` crate.

use vstd::prelude::*;
use vstd::string::*;

verus! {

/// `regex::Error`, what the `regex` crate reports of a pattern it cannot
/// compile.
#[verifier::external_type_specification]
#[verifier::external_body]
pub struct ExRegexError(regex::Error);

/// Whether the `regex` crate compiles `pattern`.
pub uninterp spec fn pattern_compiles(pattern: Seq<char>) -> bool;

/// What the leftmost match of `pattern` in `haystack` holds in capture
/// group `group`, by the rules of the `regex` crate: `None` where the
/// pattern matches nowhere, `Some(None)` where it matches and the pattern
/// has no such group or the group took no part, else the text the group
/// matched.
pub uninterp spec fn first_capture(pattern: Seq<char>, haystack: Seq<char>, group: nat) -> Option<
    Option<Seq<char>>,
>;

/// The characters of what a capture holds.
pub open spec fn capture_text(found: Option<Option<String>>) -> Option<Option<Seq<char>>> {
    match found {
        Some(Some(text)) => Some(Some(text@)),
        Some(None) => Some(None),
        None => None,
    }
}

/// `Regex::new`, then `Regex::captures` and `Captures::get` on the
/// result, the matched text copied out. The call fails exactly on a
/// pattern that the crate does not compile, with the crate's own error.
#[verifier::external_body]
pub(crate) fn capture(pattern: &str, haystack: &str, group: usize) -> (r: Result<
    Option<Option<String>>,
    regex::Error,
>)
    ensures
        r is Ok <==> pattern_compiles(pattern@),
        r matches Ok(found) ==> capture_text(found) == first_capture(
            pattern@,
            haystack@,
            group as nat,
        ),
{
    let compiled = regex::Regex::new(pattern)?;
    Ok(compiled.captures(haystack).map(|c| c.get(group).map(|m| m.as_str().to_string())))
}

} // verus!
