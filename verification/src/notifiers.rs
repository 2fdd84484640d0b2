//! Files that are being written to. Thumbnails of such files are not made
//! until the writing has finished.

use vstd::prelude::*;
use crate::paths::{same_path, path_eq};
use crate::operation::strs_view;

verus! {

/// The paths that are being written to, in the order writing began.
pub struct FileWritingNotifier {
    pub data: Vec<String>,
}

/// Whether `p` is among the paths being written to.
pub open spec fn writing_to(data: Seq<Seq<char>>, p: Seq<char>) -> bool {
    exists|i: int| 0 <= i < data.len() && path_eq(#[trigger] data[i], p)
}

/// The paths that remain once writing to `p` has finished.
pub open spec fn without_path(data: Seq<Seq<char>>, p: Seq<char>) -> Seq<Seq<char>> {
    data.filter(|q: Seq<char>| !path_eq(q, p))
}

impl FileWritingNotifier {
    /// A notifier with no file being written.
    pub fn new() -> (r: Self)
        ensures
            r.data@.len() == 0,
    {
        FileWritingNotifier { data: Vec::new() }
    }
}

/// Records that `path` is being written to.
pub fn actively_writing_add(notifier: &mut FileWritingNotifier, path: String)
    ensures
        strs_view(final(notifier).data@) == strs_view(old(notifier).data@).push(path@),
{
    notifier.data.push(path);
    assert(strs_view(notifier.data@) =~= strs_view(old(notifier).data@).push(path@));
}

/// Whether a tick has to wait for the next finished file: it does while
/// some file is being written to, and returns at once otherwise.
pub fn actively_writing_tick(notifier: &FileWritingNotifier) -> (r: bool)
    ensures
        r == (notifier.data@.len() > 0),
{
    !notifier.data.is_empty()
}

/// Records that writing to `path` has finished: every entry that is the same
/// path is dropped, the others keep their order.
pub fn actively_writing_remove(notifier: &mut FileWritingNotifier, path: &str)
    ensures
        strs_view(final(notifier).data@) == without_path(strs_view(old(notifier).data@), path@),
{
    let ghost pred = |q: Seq<char>| !path_eq(q, path@);
    let ghost orig = strs_view(notifier.data@);
    let mut kept: Vec<String> = Vec::new();
    let mut i: usize = 0;
    while i < notifier.data.len()
        invariant
            strs_view(notifier.data@) == orig,
            pred == (|q: Seq<char>| !path_eq(q, path@)),
            orig.len() == notifier.data@.len(),
            i <= orig.len(),
            strs_view(kept@) == orig.subrange(0, i as int).filter(pred),
        decreases orig.len() - i,
    {
        let p = notifier.data[i].clone();
        proof {
            assert(orig[i as int] == p@);
            assert(orig.subrange(0, i + 1) =~= orig.subrange(0, i as int).push(orig[i as int]));
            orig.subrange(0, i as int).lemma_filter_push(orig[i as int], pred);
        }
        let ghost before = strs_view(kept@);
        let ghost next = orig.subrange(0, i + 1).filter(pred);
        if !same_path(p.as_str(), path) {
            assert(pred(orig[i as int]));
            kept.push(p);
            assert(strs_view(kept@) =~= before.push(orig[i as int]));
            assert(strs_view(kept@) == next);
        } else {
            assert(!pred(orig[i as int]));
            assert(before == next);
        }
        i = i + 1;
    }
    assert(orig.subrange(0, orig.len() as int) =~= orig);
    notifier.data = kept;
}

/// Whether `path` is being written to.
pub fn is_actively_writing_to(notifier: &FileWritingNotifier, path: &str) -> (r: bool)
    ensures
        r == writing_to(strs_view(notifier.data@), path@),
{
    let ghost v = strs_view(notifier.data@);
    let mut i: usize = 0;
    while i < notifier.data.len()
        invariant
            v == strs_view(notifier.data@),
            v.len() == notifier.data@.len(),
            i <= v.len(),
            forall|j: int| 0 <= j < i ==> !path_eq(#[trigger] v[j], path@),
        decreases v.len() - i,
    {
        assert(v[i as int] == notifier.data@[i as int]@);
        if same_path(notifier.data[i].as_str(), path) {
            return true;
        }
        i = i + 1;
    }
    false
}

/// Once a path is added it is being written to, alongside what was already;
/// once writing to a path finishes it no longer is, while every path that is
/// not that path keeps its state.
pub proof fn lemma_add_then_remove(data: Seq<Seq<char>>, added: Seq<char>, q: Seq<char>, r: Seq<char>)
    requires
        !path_eq(r, q),
    ensures
        writing_to(data.push(added), q) == (writing_to(data, q) || path_eq(added, q)),
        !writing_to(without_path(data, q), q),
        writing_to(without_path(data, q), r) == writing_to(data, r),
{
    let pred = |p: Seq<char>| !path_eq(p, q);
    let f = data.filter(pred);
    assert(writing_to(data.push(added), q) == (writing_to(data, q) || path_eq(added, q))) by {
        if writing_to(data, q) {
            let i = choose|i: int| 0 <= i < data.len() && path_eq(#[trigger] data[i], q);
            assert(data.push(added)[i] == data[i]);
        }
        if writing_to(data.push(added), q) {
            let i = choose|i: int| 0 <= i < data.len() + 1 && path_eq(#[trigger] data.push(added)[i], q);
            if i < data.len() {
                assert(data.push(added)[i] == data[i]);
            }
        }
        if path_eq(added, q) {
            assert(path_eq(data.push(added)[data.len() as int], q));
        }
    }
    assert(!writing_to(f, q)) by {
        if writing_to(f, q) {
            let i = choose|i: int| 0 <= i < f.len() && path_eq(#[trigger] f[i], q);
            data.lemma_filter_pred(pred, i);
        }
    }
    if writing_to(f, r) {
        let i = choose|i: int| 0 <= i < f.len() && path_eq(#[trigger] f[i], r);
        assert(f.contains(f[i]));
        data.lemma_filter_contains_rev(pred, f[i]);
        let j = choose|j: int| 0 <= j < data.len() && data[j] == f[i];
        assert(path_eq(data[j], r));
    }
    if writing_to(data, r) {
        let j = choose|j: int| 0 <= j < data.len() && path_eq(#[trigger] data[j], r);
        assert(pred(data[j]));
        data.lemma_filter_contains(pred, j);
        let i = choose|i: int| 0 <= i < f.len() && f[i] == data[j];
        assert(path_eq(f[i], r));
    }
}

} // verus!
