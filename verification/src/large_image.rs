//! Large previews that are decoded in the background: which paths are being
//! decoded, and which already have a decoded image.

use vstd::prelude::*;
use crate::paths::{same_path, path_eq};

verus! {

/// The first index from `i` on whose path is the same path as `p`.
pub open spec fn find_path(keys: Seq<Seq<char>>, p: Seq<char>, i: int) -> Option<int>
    decreases keys.len() - i,
{
    if i < 0 || i >= keys.len() {
        None
    } else if path_eq(keys[i], p) {
        Some(i)
    } else {
        find_path(keys, p, i + 1)
    }
}

/// Which paths are being decoded (with the generation of their request) and
/// which have been decoded (with their image).
pub struct LargeImageManager<H> {
    decoding: Vec<(String, u64)>,
    decoded: Vec<(String, H)>,
}

/// The paths of a list of path-keyed entries.
pub open spec fn keys_of<T>(entries: Seq<(String, T)>) -> Seq<Seq<char>> {
    entries.map_values(|e: (String, T)| e.0@)
}

proof fn lemma_find_path_found(keys: Seq<Seq<char>>, p: Seq<char>, i: int)
    requires
        0 <= i <= keys.len(),
    ensures
        find_path(keys, p, i) is Some <==> exists|j: int| i <= j < keys.len() && path_eq(#[trigger] keys[j], p),
        find_path(keys, p, i) matches Some(j) ==> i <= j < keys.len() && path_eq(keys[j], p) && forall|k: int|
            i <= k < j ==> !path_eq(#[trigger] keys[k], p),
    decreases keys.len() - i,
{
    if i < keys.len() {
        lemma_find_path_found(keys, p, i + 1);
    }
}

fn find_key<T>(entries: &Vec<(String, T)>, p: &str) -> (r: Option<usize>)
    ensures
        match find_path(keys_of(entries@), p@, 0) {
            Some(j) => r == Some(j as usize),
            None => r is None,
        },
        r matches Some(i) ==> i < entries@.len() && path_eq(keys_of(entries@)[i as int], p@)
            && find_path(keys_of(entries@), p@, 0) == Some(i as int),
{
    let ghost keys = keys_of(entries@);
    proof {
        lemma_find_path_found(keys, p@, 0);
    }
    let mut i: usize = 0;
    while i < entries.len()
        invariant
            keys == keys_of(entries@),
            keys.len() == entries@.len(),
            i <= entries@.len(),
            find_path(keys, p@, 0) == find_path(keys, p@, i as int),
        decreases entries@.len() - i,
    {
        assert(keys[i as int] == entries@[i as int].0@);
        if same_path(entries[i].0.as_str(), p) {
            return Some(i);
        }
        i = i + 1;
    }
    None
}

impl<H> LargeImageManager<H> {
    /// The paths being decoded, with the generations of their requests.
    pub closed spec fn decoding_view(&self) -> Seq<(Seq<char>, u64)> {
        self.decoding@.map_values(|e: (String, u64)| (e.0@, e.1))
    }

    /// Whether `p` is being decoded under request `generation`.
    pub closed spec fn spec_decoding_generation(&self, p: Seq<char>, generation: u64) -> bool {
        find_path(keys_of(self.decoding@), p, 0) matches Some(j) && self.decoding@[j].1 == generation
    }

    /// The position of `p` among the paths being decoded, if it is one.
    pub closed spec fn decoding_index(&self, p: Seq<char>) -> Option<int> {
        find_path(keys_of(self.decoding@), p, 0)
    }

    /// Whether `p` is being decoded.
    pub closed spec fn spec_is_decoding(&self, p: Seq<char>) -> bool {
        find_path(keys_of(self.decoding@), p, 0) is Some
    }

    /// The decoded image of `p`, if there is one.
    pub closed spec fn spec_decoded(&self, p: Seq<char>) -> Option<H> {
        match find_path(keys_of(self.decoded@), p, 0) {
            Some(j) => Some(self.decoded@[j].1),
            None => None,
        }
    }

    /// A manager with nothing decoded or being decoded.
    pub fn new() -> (r: Self)
        ensures
            forall|p: Seq<char>| !r.spec_is_decoding(p) && r.spec_decoded(p) is None,
    {
        LargeImageManager { decoding: Vec::new(), decoded: Vec::new() }
    }

    /// Whether `path` is being decoded.
    pub fn is_decoding(&self, path: &str) -> (r: bool)
        ensures
            r == self.spec_is_decoding(path@),
    {
        find_key(&self.decoding, path).is_some()
    }

    /// The decoded image of `path`, if there is one.
    pub fn get_decoded(&self, path: &str) -> (r: Option<&H>)
        ensures
            match self.spec_decoded(path@) {
                Some(h) => r matches Some(x) && *x == h,
                None => r is None,
            },
    {
        match find_key(&self.decoded, path) {
            Some(i) => Some(&self.decoded[i].1),
            None => None,
        }
    }

    /// Starts decoding `path` under request `generation`, unless it is being
    /// decoded or has been decoded already. Returns whether it started.
    pub fn try_start_decode(&mut self, path: &str, generation: u64) -> (r: bool)
        ensures
            r == (!old(self).spec_is_decoding(path@) && old(self).spec_decoded(path@) is None),
            r ==> final(self).spec_is_decoding(path@),
            forall|q: Seq<char>| #[trigger] final(self).spec_decoded(q) == old(self).spec_decoded(q),
            forall|q: Seq<char>|
                old(self).spec_is_decoding(q) ==> #[trigger] final(self).spec_is_decoding(q),
            !r ==> final(self).decoding_view() == old(self).decoding_view(),
            !r ==> *final(self) == *old(self),
            r ==> final(self).decoding_view() == old(self).decoding_view().push((path@, generation)),
            r ==> final(self).spec_decoding_generation(path@, generation),
    {
        if find_key(&self.decoding, path).is_some() || find_key(&self.decoded, path).is_some() {
            return false;
        }
        let ghost old_keys = keys_of(self.decoding@);
        self.decoding.push((String::from_str(path), generation));
        proof {
            let keys = keys_of(self.decoding@);
            assert(keys =~= old_keys.push(path@));
            lemma_find_path_found(keys, path@, 0);
            lemma_find_path_found(old_keys, path@, 0);
            assert(path_eq(keys[old_keys.len() as int], path@)) by {
                assert(keys[old_keys.len() as int] == path@);
            }
            assert forall|q: Seq<char>| old(self).spec_is_decoding(q) implies #[trigger] self.spec_is_decoding(q) by {
                lemma_find_path_found(keys, q, 0);
                lemma_find_path_found(old_keys, q, 0);
                let j = choose|j: int| 0 <= j < old_keys.len() && path_eq(#[trigger] old_keys[j], q);
                assert(keys[j] == old_keys[j]);
            }
            assert(self.decoding_view() =~= old(self).decoding_view().push((path@, generation)));
            assert forall|j: int| 0 <= j < old_keys.len() implies !path_eq(#[trigger] keys[j], path@) by {
                assert(keys[j] == old_keys[j]);
            }
            lemma_find_path_found_prefix(keys, path@, old_keys.len() as int);
            assert(self.decoding@[old_keys.len() as int].1 == generation);
        }
        true
    }

    /// Stores the decoded image of `path` for request `generation`. An image
    /// for a request that is no longer being decoded is dropped; otherwise
    /// the request ends and the image replaces any earlier one for the path.
    /// Returns whether the image was stored.
    pub fn store_decoded_with_generation(&mut self, path: String, image: H, generation: u64) -> (r: bool)
        ensures
            r == old(self).spec_decoding_generation(path@, generation),
            r ==> final(self).spec_decoded(path@) == Some(image),
            r ==> final(self).decoding_view() == old(self).decoding_view().remove(
                old(self).decoding_index(path@)->0,
            ),
            !r ==> final(self).decoding_view() == old(self).decoding_view(),
            !r ==> forall|q: Seq<char>| #[trigger] final(self).spec_decoded(q) == old(self).spec_decoded(q),
            r ==> forall|q: Seq<char>| !path_eq(q, path@) ==> #[trigger] final(self).spec_decoded(q) == old(self).spec_decoded(q),
    {
        let i = match find_key(&self.decoding, path.as_str()) {
            Some(i) => i,
            None => return false,
        };
        if self.decoding[i].1 != generation {
            return false;
        }
        let ghost dv = self.decoding_view();
        self.decoding.remove(i);
        assert(self.decoding_view() =~= dv.remove(i as int));
        let ghost dk = keys_of(self.decoded@);
        match find_key(&self.decoded, path.as_str()) {
            Some(j) => {
                let ghost p = path@;
                self.decoded.set(j, (path, image));
                proof {
                    let keys = keys_of(self.decoded@);
                    assert(keys =~= dk.update(j as int, p));
                    lemma_find_path_found(dk, p, 0);
                    assert forall|q: Seq<char>| !path_eq(q, p) implies #[trigger] self.spec_decoded(q) == old(self).spec_decoded(q) by {
                        lemma_find_path_update(dk, j as int, p, q, 0);
                        lemma_find_path_found(dk, q, 0);
                        if let Some(x) = find_path(dk, q, 0) {
                            assert(x != j);
                            assert(self.decoded@[x] == old(self).decoded@[x]);
                        }
                    }
                    assert forall|k: int| 0 <= k < j implies !path_eq(#[trigger] keys[k], p) by {
                        assert(keys[k] == dk[k]);
                    }
                    lemma_find_path_found_prefix(keys, p, j as int);
                }
            },
            None => {
                let ghost p = path@;
                self.decoded.push((path, image));
                proof {
                    let keys = keys_of(self.decoded@);
                    assert(keys =~= dk.push(p));
                    assert forall|q: Seq<char>| !path_eq(q, p) implies #[trigger] self.spec_decoded(q) == old(self).spec_decoded(q) by {
                        lemma_find_path_push(dk, p, q, 0);
                        lemma_find_path_found(dk, q, 0);
                        if let Some(x) = find_path(dk, q, 0) {
                            assert(self.decoded@[x] == old(self).decoded@[x]);
                        }
                    }
                    lemma_find_path_found(dk, p, 0);
                    lemma_find_path_found_prefix(keys, p, dk.len() as int);
                    assert(keys[dk.len() as int] == p);
                }
            },
        }
        true
    }
}

/// Replacing, by a key that is not `p`, a key that is not `p` leaves where
/// `p` is first found.
proof fn lemma_find_path_update(keys: Seq<Seq<char>>, j: int, k: Seq<char>, p: Seq<char>, i: int)
    requires
        0 <= j < keys.len(),
        !path_eq(keys[j], p),
        !path_eq(k, p),
        0 <= i,
    ensures
        find_path(keys.update(j, k), p, i) == find_path(keys, p, i),
    decreases keys.len() - i,
{
    if i < keys.len() {
        lemma_find_path_update(keys, j, k, p, i + 1);
    }
}

/// Adding a key that is not `p` leaves where `p` is first found.
proof fn lemma_find_path_push(keys: Seq<Seq<char>>, k: Seq<char>, p: Seq<char>, i: int)
    requires
        !path_eq(k, p),
        0 <= i,
    ensures
        find_path(keys.push(k), p, i) == find_path(keys, p, i),
    decreases keys.len() + 1 - i,
{
    if i < keys.len() + 1 {
        lemma_find_path_push(keys, k, p, i + 1);
    }
}

/// Where no earlier key matches, the first match is at the first key that does.
proof fn lemma_find_path_found_prefix(keys: Seq<Seq<char>>, p: Seq<char>, k: int)
    requires
        0 <= k < keys.len(),
        forall|j: int| 0 <= j < k ==> !path_eq(#[trigger] keys[j], p),
        path_eq(keys[k], p),
    ensures
        find_path(keys, p, 0) == Some(k),
{
    lemma_find_path_from(keys, p, 0, k);
}

proof fn lemma_find_path_from(keys: Seq<Seq<char>>, p: Seq<char>, i: int, k: int)
    requires
        0 <= i <= k < keys.len(),
        forall|j: int| i <= j < k ==> !path_eq(#[trigger] keys[j], p),
        path_eq(keys[k], p),
    ensures
        find_path(keys, p, i) == Some(k),
    decreases k - i,
{
    if i < k {
        lemma_find_path_from(keys, p, i + 1, k);
    }
}

/// Starts decoding the large preview of a PDF, under request 0. Returns
/// whether decoding started: it does not when the path is being decoded or
/// was decoded.
pub fn try_decode_pdf<H>(manager: &mut LargeImageManager<H>, path: &str) -> (r: bool)
    ensures
        r == (!old(manager).spec_is_decoding(path@) && old(manager).spec_decoded(path@) is None),
        r ==> final(manager).spec_is_decoding(path@),
        forall|q: Seq<char>| #[trigger] final(manager).spec_decoded(q) == old(manager).spec_decoded(q),
        forall|q: Seq<char>|
            old(manager).spec_is_decoding(q) ==> #[trigger] final(manager).spec_is_decoding(q),
        !r ==> final(manager).decoding_view() == old(manager).decoding_view(),
        !r ==> *final(manager) == *old(manager),
        r ==> final(manager).decoding_view() == old(manager).decoding_view().push((path@, 0)),
        r ==> final(manager).spec_decoding_generation(path@, 0),
{
    manager.try_start_decode(path, 0)
}

} // verus!
