//! Regular expressions and glob patterns, as the crates `regex` and `glob`
//! read them.

use vstd::prelude::*;

verus! {

/// Whether the text is a regular expression that `regex` accepts.
pub uninterp spec fn regex_compiles(pattern: Seq<char>) -> bool;

/// Whether the regular expression matches somewhere in the text.
pub uninterp spec fn regex_finds(pattern: Seq<char>, text: Seq<char>) -> bool;

/// Whether the text is a glob pattern that `glob` accepts.
pub uninterp spec fn glob_compiles(pattern: Seq<char>) -> bool;

/// Whether the glob pattern matches the whole of the text.
pub uninterp spec fn glob_matches(pattern: Seq<char>, text: Seq<char>) -> bool;

/// Calls `regex::Regex::new` and tells whether it returned a regular
/// expression. The contract claims that this depends on the pattern
/// alone: `regex_compiles` is the name of the outcome.
#[verifier::external_body]
pub(crate) fn regex_is_valid(pattern: &str) -> (ok: bool)
    ensures
        ok == regex_compiles(pattern@),
{
    regex::Regex::new(pattern).is_ok()
}

/// Compiles the pattern with `regex::Regex::new` and calls
/// `regex::Regex::is_match` on the text. The contract claims that the
/// outcome depends on pattern and text alone: `regex_finds` is its name.
/// A pattern that does not compile is left out, as the call would panic.
#[verifier::external_body]
pub(crate) fn regex_is_match(pattern: &str, text: &str) -> (found: bool)
    requires
        regex_compiles(pattern@),
    ensures
        found == regex_finds(pattern@, text@),
{
    regex::Regex::new(pattern).unwrap().is_match(text)
}

/// Where the leftmost match of the regular expression lies in the text,
/// as the places of its first byte and behind its last byte in the UTF-8
/// encoding of the text; none where the expression matches nowhere, and
/// none where it is not well formed.
pub uninterp spec fn regex_first_match(pattern: Seq<char>, text: Seq<char>) -> Option<(int, int)>;

/// Compiles the pattern with `regex::Regex::new` and calls
/// `regex::Regex::find` on the text. The contract claims that the outcome
/// depends on pattern and text alone, `regex_first_match` being its name,
/// and that a match begins and ends within the text where a character
/// begins or the text ends, as `regex::Match` documents.
#[verifier::external_body]
pub(crate) fn regex_find(pattern: &str, text: &str) -> (r: Option<(usize, usize)>)
    ensures
        match r {
            Some((start, end)) => {
                &&& regex_first_match(pattern@, text@) == Some((start as int, end as int))
                &&& start <= end
                &&& crate::text::at_boundary(text@, start as int)
                &&& crate::text::at_boundary(text@, end as int)
            },
            None => regex_first_match(pattern@, text@) is None,
        },
{
    regex::Regex::new(pattern).ok().and_then(|re| re.find(text).map(|m| (m.start(), m.end())))
}

/// Calls `glob::Pattern::new` and tells whether it returned a pattern.
/// The contract claims that this depends on the text of the pattern
/// alone: `glob_compiles` is the name of the outcome.
#[verifier::external_body]
pub(crate) fn glob_is_valid(pattern: &str) -> (ok: bool)
    ensures
        ok == glob_compiles(pattern@),
{
    glob::Pattern::new(pattern).is_ok()
}

/// Compiles the pattern with `glob::Pattern::new` and calls
/// `glob::Pattern::matches` on the text, with the crate's default options.
/// The contract claims that the outcome depends on pattern and text
/// alone: `glob_matches` is its name. A pattern that does not compile is
/// left out, as the call would panic.
#[verifier::external_body]
pub(crate) fn glob_is_match(pattern: &str, text: &str) -> (matched: bool)
    requires
        glob_compiles(pattern@),
    ensures
        matched == glob_matches(pattern@, text@),
{
    glob::Pattern::new(pattern).unwrap().matches(text)
}

} // verus!
