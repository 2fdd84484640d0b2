//! Case-insensitive regular expressions, through the `regex` crate, and
//! case-insensitive globs, through the `globset` crate: how a text is
//! escaped is stated; which patterns build and what a pattern matches are
//! named, not restated.

use vstd::prelude::*;

verus! {

/// The characters that have a meaning in a pattern (`is_meta_character`).
pub open spec fn is_meta_char(c: char) -> bool {
    c == '\\' || c == '.' || c == '+' || c == '*' || c == '?' || c == '(' || c == ')' || c == '|' || c == '['
        || c == ']' || c == '{' || c == '}' || c == '^' || c == '$' || c == '#' || c == '&' || c == '-' || c == '~'
}

/// What `regex::escape` gives for a text: each character, with a backslash
/// before each character that has a meaning in a pattern, so that the
/// pattern matches the text literally.
pub open spec fn regex_escaped(text: Seq<char>) -> Seq<char>
    decreases text.len(),
{
    if text.len() == 0 {
        seq![]
    } else {
        let rest = regex_escaped(text.drop_last());
        let c = text.last();
        if is_meta_char(c) {
            rest + seq!['\\', c]
        } else {
            rest.push(c)
        }
    }
}

/// Whether `pattern` builds as a case-insensitive regular expression
/// (`RegexBuilder::build` succeeds).
pub uninterp spec fn regex_ci_valid(pattern: Seq<char>) -> bool;

/// Whether the case-insensitive regular expression `pattern` matches
/// somewhere in `text` (`Regex::is_match`).
pub uninterp spec fn regex_ci_match(pattern: Seq<char>, text: Seq<char>) -> bool;

/// Escapes a text for use in a pattern (`regex::escape`).
#[verifier::external_body]
pub(crate) fn escape(text: &str) -> (r: String)
    ensures
        r@ == regex_escaped(text@),
{
    regex::escape(text)
}

/// Whether the case-insensitive regular expression `pattern` matches
/// somewhere in `text`: builds it (`RegexBuilder::new`, `case_insensitive`,
/// `build`) and asks `Regex::is_match`; none where the pattern cannot be
/// built, which depends on the pattern alone (the text is not read before
/// the build succeeds). Which patterns build is named, not restated.
#[verifier::external_body]
pub(crate) fn ci_is_match(pattern: &str, text: &str) -> (r: Option<bool>)
    ensures
        r is Some <==> regex_ci_valid(pattern@),
        r matches Some(b) ==> b == regex_ci_match(pattern@, text@),
{
    regex::RegexBuilder::new(pattern).case_insensitive(true).build().ok().map(|re| re.is_match(text))
}

/// Whether `name` begins, case-insensitively, with the text `prefix`: the
/// pattern `^` followed by `prefix` escaped matches it.
pub open spec fn regex_ci_prefix(name: Seq<char>, prefix: Seq<char>) -> bool {
    regex_ci_match(seq!['^'] + regex_escaped(prefix), name)
}

/// Whether `pattern` builds as a case-insensitive glob
/// (`GlobBuilder::build` succeeds).
pub uninterp spec fn glob_ci_valid(pattern: Seq<char>) -> bool;

/// Whether the case-insensitive glob `pattern` matches the path `name`
/// (`GlobMatcher::is_match`).
pub uninterp spec fn glob_ci_match(pattern: Seq<char>, name: Seq<char>) -> bool;

/// Whether the case-insensitive glob `pattern` matches the path `name`:
/// builds it (`GlobBuilder::new`, `case_insensitive`, `build`,
/// `compile_matcher`) and asks `GlobMatcher::is_match`; none where the glob
/// cannot be built, which depends on the pattern alone. Which globs build
/// and what they match are named, not restated.
#[verifier::external_body]
pub(crate) fn glob_ci_is_match(pattern: &str, name: &str) -> (r: Option<bool>)
    ensures
        r is Some <==> glob_ci_valid(pattern@),
        r matches Some(b) ==> b == glob_ci_match(pattern@, name@),
{
    globset::GlobBuilder::new(pattern)
        .case_insensitive(true)
        .build()
        .ok()
        .map(|glob| glob.compile_matcher().is_match(std::path::Path::new(name)))
}

} // verus!
