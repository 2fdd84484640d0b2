//! What the trash reports, read from the platform's trash: its number of
//! entries, whether it is empty, and its folders.

use vstd::prelude::*;

verus! {

/// The platform's trash.
#[derive(Clone, Copy, Debug)]
pub struct Trash;

/// The number of entries in the trash, given the listing's count (`None`
/// when listing failed): a failed listing counts as empty.
pub fn trash_entries(listed: Option<usize>) -> (r: usize)
    ensures
        r == match listed {
            Some(n) => n,
            None => 0,
        },
{
    match listed {
        Some(n) => n,
        None => 0,
    }
}

/// Whether the trash is empty, given the platform's answer (`None` when it
/// could not tell): when it cannot tell, the trash counts as empty.
pub fn is_empty_blocking(answer: Option<bool>) -> (r: bool)
    ensures
        r == match answer {
            Some(b) => b,
            None => true,
        },
{
    match answer {
        Some(b) => b,
        None => true,
    }
}

/// The trash folders, given the platform's answer (`None` when it could not
/// tell): none when it cannot tell.
pub fn trash_folders_blocking(answer: Option<Vec<String>>) -> (r: Vec<String>)
    ensures
        r@ == match answer {
            Some(v) => v@,
            None => Seq::<String>::empty(),
        },
{
    match answer {
        Some(v) => v,
        None => Vec::new(),
    }
}

} // verus!
