//! Completions for a path being typed into the location bar: the entries of
//! its folder whose names begin, case-insensitively, with what follows the
//! last separator, in the order of names, at most eight.

use vstd::prelude::*;
use crate::paths::{parent, strip_prefix, join, path_parent, path_strip_prefix, path_join};
use crate::patterns::{escape, ci_is_match, regex_ci_prefix, regex_escaped, regex_ci_valid};
use crate::text::{copy_str, push_char};

verus! {

/// The most completions offered.
pub const MAX_COMPLETIONS: usize = 8;

/// Whether the entry at `a` is listed before the entry at `b`: its name
/// comes first in the order of names (`ranks`), equal names in the order in
/// which the entries were read.
pub open spec fn completion_before(ranks: Seq<u64>, a: usize, b: usize) -> bool {
    ranks[a as int] < ranks[b as int] || (ranks[a as int] == ranks[b as int] && a < b)
}

/// Whether `s` lists the entries whose names begin with `child`, each once,
/// in the listing order.
pub open spec fn completion_order(names: Seq<String>, ranks: Seq<u64>, child: Seq<char>, s: Seq<usize>) -> bool {
    &&& forall|k: int| 0 <= k < s.len() ==> #[trigger] s[k] < names.len() && regex_ci_prefix(names[s[k] as int]@, child)
    &&& forall|i: int| 0 <= i < names.len() && #[trigger] regex_ci_prefix(names[i]@, child) ==> s.contains(i as usize)
    &&& forall|k: int, l: int| 0 <= k < l < s.len() ==> completion_before(ranks, #[trigger] s[k], #[trigger] s[l])
}

/// Whether `s` is in the listing order.
pub open spec fn completion_sorted(ranks: Seq<u64>, s: Seq<usize>) -> bool {
    forall|k: int, l: int| 0 <= k < l < s.len() ==> completion_before(ranks, #[trigger] s[k], #[trigger] s[l])
}

/// Inserting an entry between those listed before it and those listed after
/// it keeps the list in order.
proof fn lemma_insert_sorted(ranks: Seq<u64>, s: Seq<usize>, pos: int, x: usize)
    requires
        0 <= pos <= s.len(),
        completion_sorted(ranks, s),
        forall|k: int| 0 <= k < s.len() ==> #[trigger] s[k] < x,
        forall|q: int| pos <= q < s.len() ==> completion_before(ranks, x, #[trigger] s[q]),
        pos > 0 ==> !(ranks[s[pos - 1] as int] > ranks[x as int]),
    ensures
        completion_sorted(ranks, s.insert(pos, x)),
{
    let t = s.insert(pos, x);
    if pos > 0 {
        assert(s[pos - 1] < x);
        assert(completion_before(ranks, s[pos - 1], x));
    }
    assert forall|k: int, l: int| 0 <= k < l < t.len() implies completion_before(ranks, #[trigger] t[k], #[trigger] t[l]) by {
        if l < pos {
            assert(t[k] == s[k] && t[l] == s[l]);
        } else if k > pos {
            assert(t[k] == s[k - 1] && t[l] == s[l - 1]);
        } else if l == pos {
            assert(t[k] == s[k] && t[l] == x);
            if k < pos - 1 {
                assert(completion_before(ranks, s[k], s[pos - 1]));
            }
        } else if k == pos {
            assert(t[k] == x && t[l] == s[l - 1]);
        } else {
            assert(t[k] == s[k] && t[l] == s[l - 1]);
        }
    }
}

/// A list with an entry inserted holds that entry and the list's own.
proof fn lemma_insert_contains(s: Seq<usize>, pos: int, x: usize)
    requires
        0 <= pos <= s.len(),
    ensures
        forall|q: usize| #[trigger] s.insert(pos, x).contains(q) <==> (s.contains(q) || q == x),
{
    let t = s.insert(pos, x);
    assert forall|q: usize| #[trigger] t.contains(q) <==> (s.contains(q) || q == x) by {
        if t.contains(q) {
            let k = choose|k: int| 0 <= k < t.len() && t[k] == q;
            if k < pos {
                assert(s[k] == q);
            } else if k > pos {
                assert(s[k - 1] == q);
            }
        }
        if s.contains(q) {
            let k = choose|k: int| 0 <= k < s.len() && s[k] == q;
            if k < pos {
                assert(t[k] == q);
            } else {
                assert(t[k + 1] == q);
            }
        }
        if q == x {
            assert(t[pos] == x);
        }
    }
}

/// Whether `v` holds the completions for the entries listed by `s` (see
/// [`completion_order`]): the first of them, at most eight, each as its name
/// and its path in the folder `par`.
pub open spec fn completions_listed(
    names: Seq<String>,
    ranks: Seq<u64>,
    par: Seq<char>,
    child: Seq<char>,
    s: Seq<usize>,
    v: Seq<(String, String)>,
) -> bool {
    &&& completion_order(names, ranks, child, s)
    &&& v.len() == if s.len() < MAX_COMPLETIONS {
        s.len()
    } else {
        MAX_COMPLETIONS as nat
    }
    &&& forall|k: int|
        0 <= k < v.len() ==> (#[trigger] v[k]).0@ == names[s[k] as int]@ && v[k].1@ == path_join(par, names[s[k] as int]@)
}

/// The completions for `path`, given the names of the entries of its folder
/// as read (`names`) and the rank of each name in the order of names
/// (`ranks`): none exactly when the path has no folder, when it does not lie
/// below it, or when the pattern cannot be built; otherwise the first entries, at
/// most eight, whose names begin case-insensitively with the path's last
/// part, in the order of names, each as its name and its path.
pub fn tab_completions(path: &str, names: &Vec<String>, ranks: &Vec<u64>) -> (r: Option<Vec<(String, String)>>)
    requires
        names@.len() == ranks@.len(),
    ensures
        r is None <==> (path_parent(path@) is None || path_strip_prefix(path@, path_parent(path@)->0) is None
            || !regex_ci_valid(seq!['^'] + regex_escaped(path_strip_prefix(path@, path_parent(path@)->0)->0))),
        r matches Some(v) ==> {
            &&& path_parent(path@) is Some
            &&& path_strip_prefix(path@, path_parent(path@)->0) is Some
            &&& exists|s: Seq<usize>|
                #[trigger] completions_listed(
                    names@,
                    ranks@,
                    path_parent(path@)->0,
                    path_strip_prefix(path@, path_parent(path@)->0)->0,
                    s,
                    v@,
                )
        },
{
    let par = match parent(path) {
        Some(p) => p,
        None => return None,
    };
    let child = match strip_prefix(path, par.as_str()) {
        Some(c) => c,
        None => return None,
    };
    let escaped = escape(child.as_str());
    let mut pattern = String::new();
    push_char(&mut pattern, '^');
    pattern.append(escaped.as_str());
    assert(pattern@ =~= seq!['^'] + regex_escaped(child@));
    let n = names.len();
    if ci_is_match(pattern.as_str(), "").is_none() {
        return None;
    }
    // The matching entries, in the order read.
    let mut m: Vec<usize> = Vec::new();
    let mut i: usize = 0;
    while i < n
        invariant
            n == names@.len(),
            pattern@ == seq!['^'] + regex_escaped(child@),
            regex_ci_valid(pattern@),
            i <= n,
            forall|k: int| 0 <= k < m@.len() ==> #[trigger] m@[k] < i && regex_ci_prefix(names@[m@[k] as int]@, child@),
            forall|k: int, l: int| 0 <= k < l < m@.len() ==> #[trigger] m@[k] < #[trigger] m@[l],
            forall|j: int| 0 <= j < i && #[trigger] regex_ci_prefix(names@[j]@, child@) ==> m@.contains(j as usize),
        decreases n - i,
    {
        match ci_is_match(pattern.as_str(), names[i].as_str()) {
            None => return None,
            Some(b) => {
                if b {
                    let ghost m0 = m@;
                    m.push(i);
                    proof {
                        assert forall|j: int| 0 <= j < i + 1 && #[trigger] regex_ci_prefix(names@[j]@, child@) implies m@.contains(
                            j as usize,
                        ) by {
                            if j < i {
                                let k = choose|k: int| 0 <= k < m0.len() && m0[k] == j as usize;
                                assert(m@[k] == j as usize);
                            } else {
                                assert(m@[m0.len() as int] == j as usize);
                            }
                        }
                    }
                } else {
                    proof {
                        assert forall|j: int| 0 <= j < i + 1 && #[trigger] regex_ci_prefix(names@[j]@, child@) implies m@.contains(
                            j as usize,
                        ) by {
                            if j == i {
                                assert(false);
                            }
                        }
                    }
                }
            },
        }
        i = i + 1;
    }
    // The matching entries in the order of names, equal names as read.
    let mut s: Vec<usize> = Vec::new();
    let mut j: usize = 0;
    while j < m.len()
        invariant
            n == names@.len(),
            n == ranks@.len(),
            j <= m@.len(),
            s@.len() == j,
            forall|k: int| 0 <= k < m@.len() ==> #[trigger] m@[k] < n && regex_ci_prefix(names@[m@[k] as int]@, child@),
            forall|k: int, l: int| 0 <= k < l < m@.len() ==> #[trigger] m@[k] < #[trigger] m@[l],
            forall|k: int| 0 <= k < s@.len() ==> m@.subrange(0, j as int).contains(#[trigger] s@[k]),
            forall|a: int| 0 <= a < j ==> s@.contains(#[trigger] m@[a]),
            completion_sorted(ranks@, s@),
        decreases m@.len() - j,
    {
        let x = m[j];
        proof {
            assert forall|k: int| 0 <= k < s@.len() implies #[trigger] s@[k] < x && s@[k] < n by {
                assert(m@.subrange(0, j as int).contains(s@[k]));
                let a = choose|a: int| 0 <= a < j && m@.subrange(0, j as int)[a] == s@[k];
                assert(m@[a] == s@[k]);
            }
        }
        let mut pos: usize = s.len();
        while pos > 0 && ranks[s[pos - 1]] > ranks[x]
            invariant
                n == ranks@.len(),
                x < n,
                pos <= s@.len(),
                forall|k: int| 0 <= k < s@.len() ==> #[trigger] s@[k] < x && s@[k] < n,
                forall|q: int| pos <= q < s@.len() ==> completion_before(ranks@, x, #[trigger] s@[q]),
            decreases pos,
        {
            pos = pos - 1;
        }
        let ghost old_s = s@;
        let ghost sub = m@.subrange(0, j as int);
        s.insert(pos, x);
        proof {
            assert(s@ == old_s.insert(pos as int, x));
            lemma_insert_sorted(ranks@, old_s, pos as int, x);
            lemma_insert_contains(old_s, pos as int, x);
            let sub1 = m@.subrange(0, j as int + 1);
            assert(sub1 =~= sub.push(x));
            assert forall|k: int| 0 <= k < s@.len() implies sub1.contains(#[trigger] s@[k]) by {
                assert(old_s.insert(pos as int, x).contains(s@[k]));
                if s@[k] == x {
                    assert(sub1[j as int] == x);
                } else {
                    assert(old_s.contains(s@[k]));
                    let q = choose|q: int| 0 <= q < old_s.len() && old_s[q] == s@[k];
                    assert(sub.contains(old_s[q]));
                    let a = choose|a: int| 0 <= a < sub.len() && sub[a] == old_s[q];
                    assert(sub1[a] == s@[k]);
                }
            }
            assert forall|a: int| 0 <= a < j + 1 implies s@.contains(#[trigger] m@[a]) by {
                if a < j {
                    assert(old_s.contains(m@[a]));
                }
            }
        }
        j = j + 1;
    }
    proof {
        assert(m@.subrange(0, m@.len() as int) =~= m@);
        assert forall|k: int| 0 <= k < s@.len() implies #[trigger] s@[k] < names@.len() && regex_ci_prefix(
            names@[s@[k] as int]@,
            child@,
        ) by {
            assert(m@.contains(s@[k]));
            let a = choose|a: int| 0 <= a < m@.len() && m@[a] == s@[k];
        }
        assert forall|ii: int| 0 <= ii < names@.len() && #[trigger] regex_ci_prefix(names@[ii]@, child@) implies s@.contains(
            ii as usize,
        ) by {
            assert(m@.contains(ii as usize));
            let a = choose|a: int| 0 <= a < m@.len() && m@[a] == ii as usize;
            assert(s@.contains(m@[a]));
        }
        assert(completion_order(names@, ranks@, child@, s@));
    }
    let limit: usize = if s.len() < MAX_COMPLETIONS {
        s.len()
    } else {
        MAX_COMPLETIONS
    };
    let mut out: Vec<(String, String)> = Vec::new();
    let mut k: usize = 0;
    while k < limit
        invariant
            limit <= s@.len(),
            k <= limit,
            out@.len() == k,
            forall|q: int| 0 <= q < s@.len() ==> #[trigger] s@[q] < names@.len(),
            forall|q: int|
                0 <= q < k ==> (#[trigger] out@[q]).0@ == names@[s@[q] as int]@ && out@[q].1@ == path_join(
                    par@,
                    names@[s@[q] as int]@,
                ),
        decreases limit - k,
    {
        let name = &names[s[k]];
        let p = join(par.as_str(), name.as_str());
        out.push((copy_str(name.as_str()), p));
        k = k + 1;
    }
    proof {
        assert(path_parent(path@) == Some(par@));
        assert(path_strip_prefix(path@, par@) == Some(child@));
        assert(completions_listed(names@, ranks@, par@, child@, s@, out@));
        assert(completions_listed(
            names@,
            ranks@,
            path_parent(path@)->0,
            path_strip_prefix(path@, path_parent(path@)->0)->0,
            s@,
            out@,
        ));
    }
    let ghost ov = out@;
    let r = Some(out);
    assert(r->0@ == ov);
    r
}

} // verus!
