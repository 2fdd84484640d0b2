//! Choosing a file's MIME type among the guesses of the system database and
//! the fallbacks, and the icon names of a MIME type.

use vstd::prelude::*;
use crate::text::str_equal;

verus! {

/// The icon shown for a MIME type that has none.
pub const FALLBACK_MIME_ICON: &'static str = "text-x-generic";

/// Whether a MIME type is one the system database answers with for what it
/// cannot look into: folders, links and empty files.
pub open spec fn spec_special_mime(essence: Seq<char>) -> bool {
    essence == "inode/directory"@ || essence == "inode/symlink"@ || essence == "application/x-zerosize"@
}

/// Whether the guess by file name replaces the system database's guess: it
/// does when the database is unsure, unless its answer is one of the special
/// types for a local file.
pub open spec fn spec_use_name_guess(uncertain: bool, remote: bool, guessed: Seq<char>) -> bool {
    uncertain && (remote || !spec_special_mime(guessed))
}

/// Whether the guess by file name replaces the system database's guess.
pub fn use_name_guess(uncertain: bool, remote: bool, guessed: &str) -> (r: bool)
    ensures
        r == spec_use_name_guess(uncertain, remote, guessed@),
{
    let special = str_equal(guessed, "inode/directory") || str_equal(guessed, "inode/symlink") || str_equal(
        guessed,
        "application/x-zerosize",
    );
    uncertain && (remote || !special)
}

/// The MIME type found from a file's first bytes: the system database's
/// answer when it is certain (priority above 80), else the magic-number
/// guess, if any.
pub fn mime_from_content(database: Option<(String, u32)>, magic: Option<String>) -> (r: Option<String>)
    ensures
        r == match database {
            Some((m, p)) => if p > 80 {
                Some(m)
            } else {
                magic
            },
            None => magic,
        },
{
    match database {
        Some((m, p)) => if p > 80 {
            Some(m)
        } else {
            magic
        },
        None => magic,
    }
}

/// The icon of a MIME type from the names the database gives it: the first
/// name, with the others as fallbacks; none without names.
pub fn icon_names(names: Vec<String>) -> (r: Option<(String, Vec<String>)>)
    ensures
        names@.len() == 0 ==> r is None,
        names@.len() > 0 ==> (r matches Some(x) && x.0 == names@[0] && x.1@ == names@.subrange(1, names@.len() as int)),
{
    if names.len() == 0 {
        return None;
    }
    let mut rest = names;
    let first = rest.remove(0);
    Some((first, rest))
}

} // verus!
