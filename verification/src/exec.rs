//! Splitting `Exec` lines of desktop entries into words, as a shell would.

use vstd::prelude::*;
use crate::operation::strs_view;

verus! {

/// What `shlex::split` gives for a line: its words, or none where the line
/// is not well formed (an unclosed quote or a trailing backslash).
pub uninterp spec fn shlex_words(line: Seq<char>) -> Option<Seq<Seq<char>>>;

/// Splits a line into words with shell quoting rules (`shlex::split`). The
/// quoting rules are named, not restated.
#[verifier::external_body]
pub(crate) fn shlex_split(line: &str) -> (r: Option<Vec<String>>)
    ensures
        match r {
            Some(v) => shlex_words(line@) == Some(strs_view(v@)),
            None => shlex_words(line@) is None,
        },
{
    shlex::split(line)
}

/// A copy of a list of strings.
pub fn clone_strs(v: &Vec<String>) -> (r: Vec<String>)
    ensures
        strs_view(r@) == strs_view(v@),
{
    let mut r: Vec<String> = Vec::new();
    let mut i: usize = 0;
    while i < v.len()
        invariant
            i <= v@.len(),
            strs_view(r@) == strs_view(v@).subrange(0, i as int),
        decreases v@.len() - i,
    {
        let ghost prev = strs_view(r@);
        r.push(v[i].clone());
        assert(strs_view(v@)[i as int] == v@[i as int]@);
        assert(strs_view(r@) =~= prev.push(v@[i as int]@));
        assert(strs_view(r@) =~= strs_view(v@).subrange(0, i + 1));
        i = i + 1;
    }
    assert(strs_view(v@).subrange(0, v@.len() as int) =~= strs_view(v@));
    r
}

} // verus!
