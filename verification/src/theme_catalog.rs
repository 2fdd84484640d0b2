//! The catalog of theme files found on the search path: one theme per name,
//! the first directory that holds a name winning, listed by name.

use vstd::prelude::*;
use crate::paths::{file_stem, extension, path_file_stem, path_extension, opt_view};
use crate::text::str_equal;

verus! {

/// `a` comes before `b` in the order of their characters' code points (a
/// proper prefix comes first), which is the order of their UTF-8 bytes.
pub open spec fn lex_lt(a: Seq<char>, b: Seq<char>) -> bool
    decreases a.len(),
{
    if a.len() == 0 {
        b.len() > 0
    } else if b.len() == 0 {
        false
    } else if a[0] != b[0] {
        a[0] < b[0]
    } else {
        lex_lt(a.drop_first(), b.drop_first())
    }
}

/// No text comes before itself.
pub proof fn lemma_lex_irreflexive(a: Seq<char>)
    ensures
        !lex_lt(a, a),
    decreases a.len(),
{
    if a.len() > 0 {
        lemma_lex_irreflexive(a.drop_first());
    }
}

/// The order is transitive.
pub proof fn lemma_lex_transitive(a: Seq<char>, b: Seq<char>, c: Seq<char>)
    requires
        lex_lt(a, b),
        lex_lt(b, c),
    ensures
        lex_lt(a, c),
    decreases a.len(),
{
    if a.len() > 0 && b.len() > 0 && c.len() > 0 {
        if a[0] == b[0] && b[0] == c[0] {
            lemma_lex_transitive(a.drop_first(), b.drop_first(), c.drop_first());
        }
    }
}

/// Of two different texts, one comes before the other.
pub proof fn lemma_lex_total(a: Seq<char>, b: Seq<char>)
    requires
        a != b,
    ensures
        lex_lt(a, b) || lex_lt(b, a),
    decreases a.len(),
{
    if a.len() > 0 && b.len() > 0 && a[0] == b[0] {
        if a.drop_first() == b.drop_first() {
            assert(a =~= seq![a[0]] + a.drop_first());
            assert(b =~= seq![b[0]] + b.drop_first());
        }
        lemma_lex_total(a.drop_first(), b.drop_first());
    } else if a.len() == 0 && b.len() == 0 {
        assert(a =~= b);
    }
}

/// Whether `a` comes before `b`.
pub fn lex_less(a: &str, b: &str) -> (r: bool)
    ensures
        r == lex_lt(a@, b@),
{
    let n = a.unicode_len();
    let m = b.unicode_len();
    let mut i: usize = 0;
    assert(a@.subrange(0, n as int) =~= a@);
    assert(b@.subrange(0, m as int) =~= b@);
    while i < n && i < m
        invariant
            n == a@.len(),
            m == b@.len(),
            i <= n,
            i <= m,
            lex_lt(a@, b@) == lex_lt(a@.subrange(i as int, n as int), b@.subrange(i as int, m as int)),
        decreases n - i,
    {
        let x = a.get_char(i);
        let y = b.get_char(i);
        assert(a@.subrange(i as int, n as int)[0] == x);
        assert(b@.subrange(i as int, m as int)[0] == y);
        if x != y {
            return x < y;
        }
        assert(a@.subrange(i as int, n as int).drop_first() =~= a@.subrange(i as int + 1, n as int));
        assert(b@.subrange(i as int, m as int).drop_first() =~= b@.subrange(i as int + 1, m as int));
        i = i + 1;
    }
    i == n && i < m
}

/// The names of the themes found so far, each once, in order.
pub struct ThemeCatalog {
    names: Vec<String>,
}

/// The names are in strictly increasing order (so each occurs once).
pub open spec fn strictly_sorted(s: Seq<Seq<char>>) -> bool {
    forall|i: int, j: int| 0 <= i < j < s.len() ==> lex_lt(#[trigger] s[i], #[trigger] s[j])
}

impl ThemeCatalog {
    /// The names, as text.
    pub closed spec fn view_names(&self) -> Seq<Seq<char>> {
        self.names@.map_values(|s: String| s@)
    }

    /// The catalog's invariant: its names are strictly sorted.
    pub closed spec fn wf(&self) -> bool {
        strictly_sorted(self.view_names())
    }

    /// An empty catalog.
    pub fn new() -> (r: ThemeCatalog)
        ensures
            r.wf(),
            r.view_names() == Seq::<Seq<char>>::empty(),
    {
        let r = ThemeCatalog { names: Vec::new() };
        assert(r.view_names() =~= Seq::<Seq<char>>::empty());
        r
    }

    /// The names, in order.
    pub fn names(&self) -> (r: &Vec<String>)
        ensures
            r@.map_values(|s: String| s@) == self.view_names(),
    {
        &self.names
    }

    /// Whether `name` is in the catalog.
    pub fn contains(&self, name: &str) -> (r: bool)
        ensures
            r == self.view_names().contains(name@),
    {
        let mut i: usize = 0;
        while i < self.names.len()
            invariant
                i <= self.names@.len(),
                forall|k: int| 0 <= k < i ==> self.view_names()[k] != name@,
            decreases self.names@.len() - i,
        {
            if str_equal(self.names[i].as_str(), name) {
                assert(self.view_names()[i as int] == name@);
                return true;
            }
            i = i + 1;
        }
        false
    }

    /// The position of the theme named `name`, if it is in the catalog.
    pub fn get(&self, name: &str) -> (r: Option<usize>)
        ensures
            match r {
                Some(i) => i < self.view_names().len() && self.view_names()[i as int] == name@,
                None => !self.view_names().contains(name@),
            },
    {
        let mut i: usize = 0;
        while i < self.names.len()
            invariant
                i <= self.names@.len(),
                forall|k: int| 0 <= k < i ==> self.view_names()[k] != name@,
            decreases self.names@.len() - i,
        {
            if str_equal(self.names[i].as_str(), name) {
                return Some(i);
            }
            i = i + 1;
        }
        None
    }

    /// Adds `name` unless it is there already (an earlier directory's theme
    /// shadows a later one of the same name); returns the position at which
    /// it was added, so that the caller can keep its themes in step.
    pub fn insert(&mut self, name: String) -> (r: Option<usize>)
        requires
            old(self).wf(),
        ensures
            final(self).wf(),
            old(self).view_names().contains(name@) ==> r is None && final(self).view_names() == old(self).view_names(),
            !old(self).view_names().contains(name@) ==> (r matches Some(p) && p <= old(self).view_names().len()
                && final(self).view_names() == old(self).view_names().insert(p as int, name@)),
    {
        let ghost s = self.view_names();
        let n = self.names.len();
        let mut p: usize = 0;
        while p < n && lex_less(self.names[p].as_str(), name.as_str())
            invariant
                n == self.names@.len(),
                s == self.view_names(),
                strictly_sorted(s),
                p <= n,
                forall|k: int| 0 <= k < p ==> lex_lt(#[trigger] s[k], name@),
            decreases n - p,
        {
            assert(s[p as int] == self.names@[p as int]@);
            p = p + 1;
        }
        if p < n && str_equal(self.names[p].as_str(), name.as_str()) {
            assert(s[p as int] == name@);
            assert(s.contains(name@));
            return None;
        }
        proof {
            if p < n {
                assert(s[p as int] == self.names@[p as int]@);
                assert(!lex_lt(s[p as int], name@));
                lemma_lex_total(s[p as int], name@);
            }
            assert(p < n ==> lex_lt(name@, s[p as int]));
            assert forall|k: int| 0 <= k < s.len() implies #[trigger] s[k] != name@ by {
                if k < p {
                    lemma_lex_irreflexive(name@);
                } else {
                    if k > p {
                        lemma_lex_transitive(name@, s[p as int], s[k]);
                    }
                    lemma_lex_irreflexive(name@);
                }
            }
        }
        let ghost nm = name@;
        self.names.insert(p, name);
        proof {
            let t = s.insert(p as int, nm);
            assert(self.view_names() =~= t);
            assert forall|i: int, j: int| 0 <= i < j < t.len() implies lex_lt(#[trigger] t[i], #[trigger] t[j]) by {
                if j < p {
                } else if j == p {
                } else if i < p {
                    if j - 1 > p {
                        lemma_lex_transitive(nm, s[p as int], s[j - 1]);
                    }
                    lemma_lex_transitive(s[i], nm, s[j - 1]);
                } else if i == p {
                    if j - 1 > p {
                        lemma_lex_transitive(nm, s[p as int], s[j - 1]);
                    }
                } else {
                }
            }
        }
        Some(p)
    }
}

/// Two strictly sorted lists of names that hold the same names are the
/// same list: the catalog's names are determined by the set of names found,
/// whatever their order or repetitions.
pub proof fn lemma_sorted_names_unique(a: Seq<Seq<char>>, b: Seq<Seq<char>>)
    requires
        strictly_sorted(a),
        strictly_sorted(b),
        forall|q: Seq<char>| a.contains(q) <==> b.contains(q),
    ensures
        a == b,
    decreases a.len(),
{
    if a.len() == 0 {
        if b.len() > 0 {
            assert(b.contains(b[0]));
        }
        assert(a =~= b);
    } else {
        assert(a.contains(a[0]));
        let j = choose|j: int| 0 <= j < b.len() && b[j] == a[0];
        assert(b.contains(b[0]));
        let k = choose|k: int| 0 <= k < a.len() && a[k] == b[0];
        if j > 0 {
            assert(lex_lt(b[0], b[j]));
            if k == 0 {
                lemma_lex_irreflexive(a[0]);
            } else {
                assert(lex_lt(a[0], a[k]));
                lemma_lex_transitive(a[0], b[0], a[0]);
                lemma_lex_irreflexive(a[0]);
            }
        }
        assert(a[0] == b[0]);
        let ra = a.drop_first();
        let rb = b.drop_first();
        assert forall|q: Seq<char>| ra.contains(q) <==> rb.contains(q) by {
            if ra.contains(q) {
                let i = choose|i: int| 0 <= i < ra.len() && ra[i] == q;
                assert(a[i + 1] == q);
                assert(lex_lt(a[0], q));
                lemma_lex_irreflexive(q);
                assert(b.contains(q));
                let m = choose|m: int| 0 <= m < b.len() && b[m] == q;
                assert(m != 0);
                assert(rb[m - 1] == q);
            }
            if rb.contains(q) {
                let i = choose|i: int| 0 <= i < rb.len() && rb[i] == q;
                assert(b[i + 1] == q);
                assert(lex_lt(b[0], q));
                lemma_lex_irreflexive(q);
                assert(a.contains(q));
                let m = choose|m: int| 0 <= m < a.len() && a[m] == q;
                assert(m != 0);
                assert(ra[m - 1] == q);
            }
        }
        assert forall|x: int, y: int| 0 <= x < y < ra.len() implies lex_lt(#[trigger] ra[x], #[trigger] ra[y]) by {
            assert(ra[x] == a[x + 1] && ra[y] == a[y + 1]);
        }
        assert forall|x: int, y: int| 0 <= x < y < rb.len() implies lex_lt(#[trigger] rb[x], #[trigger] rb[y]) by {
            assert(rb[x] == b[x + 1] && rb[y] == b[y + 1]);
        }
        lemma_sorted_names_unique(ra, rb);
        assert(a =~= seq![a[0]] + ra);
        assert(b =~= seq![b[0]] + rb);
    }
}

impl ThemeCatalog {
    /// The catalog of the themes named `names`, in the order in which they
    /// were found: each name once, in order, a later repetition shadowed by
    /// the first.
    pub fn from_names(names: &Vec<String>) -> (r: ThemeCatalog)
        ensures
            r.wf(),
            forall|q: Seq<char>| r.view_names().contains(q) <==> names@.map_values(|s: String| s@).contains(q),
    {
        let ghost nv = names@.map_values(|s: String| s@);
        let mut c = ThemeCatalog::new();
        let mut i: usize = 0;
        while i < names.len()
            invariant
                i <= names@.len(),
                nv == names@.map_values(|s: String| s@),
                c.wf(),
                forall|q: Seq<char>| c.view_names().contains(q) <==> nv.subrange(0, i as int).contains(q),
            decreases names@.len() - i,
        {
            let name = names[i].clone();
            let ghost before = c.view_names();
            let ghost nm = name@;
            assert(nm == nv[i as int]);
            let present = c.contains(name.as_str());
            if present {
                assert(before.contains(nm));
            } else {
                let r = c.insert(name);
                proof {
                    let p = r->0 as int;
                    assert forall|q: Seq<char>| c.view_names().contains(q) <==> (before.contains(q) || q == nm) by {
                        let t = before.insert(p, nm);
                        if t.contains(q) {
                            let k = choose|k: int| 0 <= k < t.len() && t[k] == q;
                            if k < p {
                                assert(before[k] == q);
                            } else if k > p {
                                assert(before[k - 1] == q);
                            }
                        }
                        if before.contains(q) {
                            let k = choose|k: int| 0 <= k < before.len() && before[k] == q;
                            if k < p {
                                assert(t[k] == q);
                            } else {
                                assert(t[k + 1] == q);
                            }
                        }
                        if q == nm {
                            assert(t[p] == nm);
                        }
                    }
                }
            }
            assert(forall|q: Seq<char>| c.view_names().contains(q) <==> (before.contains(q) || q == nm));
            proof {
                let sub = nv.subrange(0, i as int);
                let sub1 = nv.subrange(0, i as int + 1);
                assert(sub1 =~= sub.push(nm));
                assert forall|q: Seq<char>| sub1.contains(q) <==> (sub.contains(q) || q == nm) by {
                    if sub1.contains(q) {
                        let k = choose|k: int| 0 <= k < sub1.len() && sub1[k] == q;
                        if k < i {
                            assert(sub[k] == q);
                        }
                    }
                    if sub.contains(q) {
                        let k = choose|k: int| 0 <= k < sub.len() && sub[k] == q;
                        assert(sub1[k] == q);
                    }
                    if q == nm {
                        assert(sub1[i as int] == q);
                    }
                }
                assert forall|q: Seq<char>| c.view_names().contains(q) <==> sub1.contains(q) by {
                    assert(c.view_names().contains(q) <==> (before.contains(q) || q == nm));
                    assert(before.contains(q) <==> sub.contains(q));
                    assert(sub1.contains(q) <==> (sub.contains(q) || q == nm));
                }
            }
            i = i + 1;
        }
        assert(nv.subrange(0, names@.len() as int) =~= nv);
        c
    }
}

/// The name under which a theme file is listed: the file stem of a `.ron`
/// file; other files are not themes.
pub open spec fn spec_theme_name(path: Seq<char>) -> Option<Seq<char>> {
    if path_extension(path) == Some("ron"@) {
        path_file_stem(path)
    } else {
        None
    }
}

/// The name under which the file at `path` is listed, if it is a theme file.
pub fn theme_name(path: &str) -> (r: Option<String>)
    ensures
        opt_view(r) == spec_theme_name(path@),
{
    let ext = extension(path);
    let is_ron = match &ext {
        Some(e) => str_equal(e.as_str(), "ron"),
        None => false,
    };
    if is_ron {
        file_stem(path)
    } else {
        None
    }
}

/// The theme that a found file gives: its name, for a theme file whose
/// theme could be read (`readable`); none otherwise.
pub open spec fn theme_candidate(file: (String, bool)) -> Option<Seq<char>> {
    if file.1 {
        spec_theme_name(file.0@)
    } else {
        None
    }
}

/// The position of the first of the first `n` files that gives the theme
/// named `name`, if one does.
pub open spec fn first_with(files: Seq<(String, bool)>, name: Seq<char>, n: int) -> Option<int>
    decreases n,
{
    if n <= 0 {
        None
    } else {
        match first_with(files, name, n - 1) {
            Some(j) => Some(j),
            None => if theme_candidate(files[n - 1]) == Some(name) {
                Some(n - 1)
            } else {
                None
            },
        }
    }
}

/// Among the first `m` files of a list, the first that gives a theme is
/// found within the first `m` files of any longer list that starts with them.
proof fn lemma_first_with_prefix(a: Seq<(String, bool)>, b: Seq<(String, bool)>, q: Seq<char>, m: int)
    requires
        0 <= m <= a.len(),
        a.len() <= b.len(),
        forall|j: int| 0 <= j < a.len() ==> b[j] == a[j],
    ensures
        first_with(b, q, m) == first_with(a, q, m),
    decreases m,
{
    if m > 0 {
        lemma_first_with_prefix(a, b, q, m - 1);
    }
}

/// Past the first `n` files, a list whose next files give no theme that
/// the first `n` do not give already finds the same first file.
proof fn lemma_first_with_repeat(f: Seq<(String, bool)>, q: Seq<char>, m: int)
    requires
        f.len() <= m <= 2 * f.len(),
    ensures
        first_with(f + f, q, m) == first_with(f, q, f.len() as int),
    decreases m,
{
    let n = f.len() as int;
    let ff = f + f;
    if m == n {
        lemma_first_with_prefix(f, ff, q, n);
    } else {
        lemma_first_with_repeat(f, q, m - 1);
        if first_with(f, q, n) is None {
            assert(ff[m - 1] == f[m - 1 - n]);
            lemma_first_with_none(f, q, n, m - 1 - n);
        }
    }
}

/// Where none of the first `n` files gives the theme, none of them gives it.
proof fn lemma_first_with_none(f: Seq<(String, bool)>, q: Seq<char>, n: int, j: int)
    requires
        0 <= j < n,
        first_with(f, q, n) is None,
    ensures
        theme_candidate(f[j]) != Some(q),
    decreases n,
{
    if j < n - 1 {
        lemma_first_with_none(f, q, n - 1, j);
    }
}

/// Loading from the same directories twice gives what loading them once
/// gives: every theme comes from the same first file.
pub proof fn lemma_load_repeated(f: Seq<(String, bool)>, q: Seq<char>)
    ensures
        first_with(f + f, q, (f + f).len() as int) == first_with(f, q, f.len() as int),
{
    assert((f + f).len() == 2 * f.len());
    lemma_first_with_repeat(f, q, 2 * f.len() as int);
}

/// Whether `src` is the path of the first of the first `n` files that gives
/// the theme named `name`.
pub open spec fn source_is(files: Seq<(String, bool)>, name: Seq<char>, n: int, src: String) -> bool {
    first_with(files, name, n) matches Some(j) && 0 <= j < files.len() && src@ == files[j].0@
}

/// Whether `c` and `srcs` are what [`load_from`] gives for `files`: a
/// well-formed catalog holding exactly the names that some file gives, and
/// beside each name the path of the first file that gives it.
pub open spec fn catalog_from(files: Seq<(String, bool)>, c: ThemeCatalog, srcs: Seq<String>) -> bool {
    &&& c.wf()
    &&& srcs.len() == c.view_names().len()
    &&& forall|q: Seq<char>| c.view_names().contains(q) <==> first_with(files, q, files.len() as int) is Some
    &&& forall|k: int| 0 <= k < srcs.len() ==> source_is(files, c.view_names()[k], files.len() as int, #[trigger] srcs[k])
}

/// Loading the same directories twice over changes nothing: the catalog
/// holds the same names, in the same order, each from the same file.
pub proof fn lemma_load_twice(
    f: Seq<(String, bool)>,
    once: ThemeCatalog,
    once_srcs: Seq<String>,
    twice: ThemeCatalog,
    twice_srcs: Seq<String>,
)
    requires
        catalog_from(f, once, once_srcs),
        catalog_from(f + f, twice, twice_srcs),
    ensures
        twice.view_names() == once.view_names(),
        twice_srcs.len() == once_srcs.len(),
        forall|k: int| 0 <= k < once_srcs.len() ==> (#[trigger] twice_srcs[k])@ == once_srcs[k]@,
{
    let n = f.len() as int;
    assert forall|q: Seq<char>| #[trigger] once.view_names().contains(q) <==> twice.view_names().contains(q) by {
        lemma_load_repeated(f, q);
    }
    lemma_sorted_names_unique(once.view_names(), twice.view_names());
    assert forall|k: int| 0 <= k < once_srcs.len() implies (#[trigger] twice_srcs[k])@ == once_srcs[k]@ by {
        let q = once.view_names()[k];
        lemma_load_repeated(f, q);
        assert(source_is(f, q, n, once_srcs[k]));
        assert(source_is(f + f, q, (f + f).len() as int, twice_srcs[k]));
        let j = first_with(f, q, n)->0;
        assert((f + f)[j] == f[j]);
    }
}

/// The themes of the files found on the search path (`files`: the files of
/// each directory in turn, the most specific directory first, with whether
/// each one's theme could be read): the catalog of their names, and at the
/// same positions the files they come from. Each name is listed once, in
/// order, and comes from the first file that gives it, so an earlier
/// directory shadows a later one; a file that is not a theme, or whose theme
/// cannot be read, gives nothing.
pub fn load_from(files: &Vec<(String, bool)>) -> (r: (ThemeCatalog, Vec<String>))
    ensures
        catalog_from(files@, r.0, r.1@),
{
    let mut c = ThemeCatalog::new();
    let mut srcs: Vec<String> = Vec::new();
    let mut i: usize = 0;
    while i < files.len()
        invariant
            i <= files@.len(),
            c.wf(),
            srcs@.len() == c.view_names().len(),
            forall|q: Seq<char>| c.view_names().contains(q) <==> first_with(files@, q, i as int) is Some,
            forall|k: int|
                0 <= k < srcs@.len() ==> source_is(files@, c.view_names()[k], i as int, #[trigger] srcs@[k]),
        decreases files@.len() - i,
    {
        let ghost before = c.view_names();
        let ghost srcs0 = srcs@;
        let named = if files[i].1 {
            theme_name(files[i].0.as_str())
        } else {
            None
        };
        assert(opt_view(named) == theme_candidate(files@[i as int]));
        match named {
            None => {
                assert forall|q: Seq<char>| #[trigger] first_with(files@, q, i as int + 1) == first_with(files@, q, i as int) by {}
                assert forall|k: int| 0 <= k < srcs@.len() implies source_is(files@, c.view_names()[k], i as int + 1, #[trigger] srcs@[k]) by {
                    let q = c.view_names()[k];
                    assert(source_is(files@, q, i as int, srcs@[k]));
                    assert(first_with(files@, q, i as int + 1) == first_with(files@, q, i as int));
                }
            },
            Some(name) => {
                let ghost nm = name@;
                if c.contains(name.as_str()) {
                    assert forall|q: Seq<char>| #[trigger] first_with(files@, q, i as int + 1) == first_with(files@, q, i as int) by {
                        if q == nm {
                            assert(first_with(files@, nm, i as int) is Some);
                        }
                    }
                    assert forall|k: int| 0 <= k < srcs@.len() implies source_is(files@, c.view_names()[k], i as int + 1, #[trigger] srcs@[k]) by {
                        let q = c.view_names()[k];
                    assert(source_is(files@, q, i as int, srcs@[k]));
                    assert(first_with(files@, q, i as int + 1) == first_with(files@, q, i as int));
                    }
                } else {
                    assert(first_with(files@, nm, i as int) is None);
                    let p = c.insert(name).unwrap();
                    srcs.insert(p, files[i].0.clone());
                    proof {
                        let t = before.insert(p as int, nm);
                        assert(c.view_names() == t);
                        assert(srcs@ == srcs0.insert(p as int, files@[i as int].0));
                        assert(first_with(files@, nm, i as int + 1) == Some(i as int));
                        assert forall|q: Seq<char>| q != nm implies first_with(files@, q, i as int + 1) == first_with(
                            files@,
                            q,
                            i as int,
                        ) by {}
                        assert forall|q: Seq<char>| #[trigger] t.contains(q) <==> (before.contains(q) || q == nm) by {
                            if t.contains(q) {
                                let k = choose|k: int| 0 <= k < t.len() && t[k] == q;
                                if k < p {
                                    assert(before[k] == q);
                                } else if k > p {
                                    assert(before[k - 1] == q);
                                }
                            }
                            if before.contains(q) {
                                let k = choose|k: int| 0 <= k < before.len() && before[k] == q;
                                if k < p {
                                    assert(t[k] == q);
                                } else {
                                    assert(t[k + 1] == q);
                                }
                            }
                            if q == nm {
                                assert(t[p as int] == nm);
                            }
                        }
                        assert forall|k: int| 0 <= k < srcs@.len() implies source_is(files@, c.view_names()[k], i as int + 1, #[trigger] srcs@[k]) by {
                            if k < p {
                                assert(t[k] == before[k] && srcs@[k] == srcs0[k]);
                                assert(before.contains(before[k]));
                            } else if k > p {
                                assert(t[k] == before[k - 1] && srcs@[k] == srcs0[k - 1]);
                                assert(before.contains(before[k - 1]));
                            } else {
                                assert(t[k] == nm && srcs@[k] == files@[i as int].0);
                            }
                        }
                    }
                }
            },
        }
        i = i + 1;
    }
    (c, srcs)
}

} // verus!
