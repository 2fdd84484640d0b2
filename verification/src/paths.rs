//! File-system paths, held as UTF-8 text. The path arithmetic is that of
//! `std::path` on Unix: joining is written out here, the rest is reached
//! through the trusted items below.

use vstd::prelude::*;
use crate::text::{copy_str, push_char};

verus! {

/// The text of an optional string, as an optional sequence of characters.
pub open spec fn opt_view(o: Option<String>) -> Option<Seq<char>> {
    match o {
        Some(s) => Some(s@),
        None => None,
    }
}

/// What `Path::file_name` gives for a path: its last normal component.
pub uninterp spec fn path_file_name(p: Seq<char>) -> Option<Seq<char>>;

/// What `Path::parent` gives for a path.
pub uninterp spec fn path_parent(p: Seq<char>) -> Option<Seq<char>>;

/// What `Path::file_stem` gives for a path.
pub uninterp spec fn path_file_stem(p: Seq<char>) -> Option<Seq<char>>;

/// What `Path::extension` gives for a path.
pub uninterp spec fn path_extension(p: Seq<char>) -> Option<Seq<char>>;

/// A separator at the end of a path leaves its components as they are.
pub proof fn lemma_trailing_separator(p: Seq<char>)
    requires
        p.len() > 0,
    ensures
        path_components(p.push('/')) == path_components(p),
{
    let q = p.push('/');
    assert(q.drop_last() =~= p);
    let sp = split_parts(p);
    assert(split_parts(q) == sp.push(seq![]));
    let f = |part: Seq<char>| is_normal_part(part);
    reveal(Seq::filter);
    assert(sp.push(seq![]).drop_last() =~= sp);
    assert(sp.push(seq![]).filter(f) == sp.filter(f));
    assert(q[0] == p[0]);
    lemma_split_parts_nonempty(p);
    assert(sp.push(seq![])[0] == sp[0]);
}

/// A path splits into at least one part.
pub proof fn lemma_split_parts_nonempty(p: Seq<char>)
    ensures
        split_parts(p).len() >= 1,
    decreases p.len(),
{
    if p.len() > 0 {
        lemma_split_parts_nonempty(p.drop_last());
    }
}

/// Joining a path with an empty one (as normalising does) leaves its
/// components as they are: the two are the same path.
pub proof fn lemma_join_empty_same_path(p: Seq<char>)
    ensures
        path_eq(path_join(p, seq![]), p),
{
    if p.len() > 0 && p.last() != '/' {
        assert(p + seq!['/'] + seq![] =~= p.push('/'));
        lemma_trailing_separator(p);
    } else {
        assert(p + seq![] =~= p);
    }
}

/// What `Path::join` gives on Unix for a base path and a path to append: an
/// absolute `p` replaces the base; otherwise `p` follows the base, with a
/// `/` between them where the base is not empty and does not end in one.
pub open spec fn path_join(base: Seq<char>, p: Seq<char>) -> Seq<char> {
    if p.len() > 0 && p[0] == '/' {
        p
    } else if base.len() > 0 && base.last() != '/' {
        base + seq!['/'] + p
    } else {
        base + p
    }
}

/// Whether `Path::starts_with` holds: `base` is a whole-component prefix of `p`.
pub uninterp spec fn path_starts_with(p: Seq<char>, base: Seq<char>) -> bool;

/// What `Path::strip_prefix` gives when `base` is a whole-component prefix of `p`.
pub uninterp spec fn path_strip_prefix(p: Seq<char>, base: Seq<char>) -> Option<Seq<char>>;

/// The parts of `p` between separators, from the left (empty parts
/// included): `a//b/` gives `a`, ``, `b`, ``.
pub open spec fn split_parts(p: Seq<char>) -> Seq<Seq<char>>
    decreases p.len(),
{
    if p.len() == 0 {
        seq![seq![]]
    } else if p.last() == '/' {
        split_parts(p.drop_last()).push(seq![])
    } else {
        let s = split_parts(p.drop_last());
        s.update(s.len() - 1, s.last().push(p.last()))
    }
}

/// Whether a part names a component: it is neither empty nor `.`.
pub open spec fn is_normal_part(part: Seq<char>) -> bool {
    part.len() > 0 && part != seq!['.']
}

/// What `Path::components` gives on Unix for a path, each component as
/// text. As its documentation states: a leading `/` is the root; repeated
/// separators and `.` parts are ignored, except a `.` at the start of a
/// relative path; a trailing separator is ignored; `..` stays.
pub open spec fn path_components(p: Seq<char>) -> Seq<Seq<char>> {
    let parts = split_parts(p);
    let rest = parts.filter(|part: Seq<char>| is_normal_part(part));
    if p.len() > 0 && p[0] == '/' {
        seq![seq!['/']] + rest
    } else if parts[0] == seq!['.'] {
        seq![seq!['.']] + rest
    } else {
        rest
    }
}

/// What `str::to_lowercase` gives for a text.
pub uninterp spec fn str_lowercase(s: Seq<char>) -> Seq<char>;

/// Whether `Path`'s `==` holds: the two paths have the same components
/// (the text of a component tells its kind, so equal texts are equal
/// components).
pub open spec fn path_eq(a: Seq<char>, b: Seq<char>) -> bool {
    path_components(a) == path_components(b)
}

/// The last component of a path (`Path::file_name`). Both `Path::file_name`
/// and the conversion to text are called; a path given as text is valid
/// UTF-8, so the conversion loses nothing. Its result is named, not spelled
/// out: the component rules of `std::path` are not restated here.
#[verifier::external_body]
pub(crate) fn file_name(p: &str) -> (r: Option<String>)
    ensures
        opt_view(r) == path_file_name(p@),
{
    std::path::Path::new(p).file_name().map(|n| n.to_string_lossy().into_owned())
}

/// The path without its last component (`Path::parent`). Its documentation
/// states that it is the path without its final component, and that there
/// is none for the empty path or a bare root; its source returns a proper
/// prefix of the path, so the parent is shorter.
#[verifier::external_body]
pub(crate) fn parent(p: &str) -> (r: Option<String>)
    ensures
        opt_view(r) == path_parent(p@),
        p@.len() == 0 ==> r is None,
        p@ == seq!['/'] ==> r is None,
        r is Some ==> r->0@.len() < p@.len(),
        r matches Some(q) ==> path_components(p@).len() > 0 && path_components(q@) == path_components(
            p@,
        ).drop_last(),
{
    std::path::Path::new(p).parent().map(|n| n.to_string_lossy().into_owned())
}

/// The file name without its final extension (`Path::file_stem`).
#[verifier::external_body]
pub(crate) fn file_stem(p: &str) -> (r: Option<String>)
    ensures
        opt_view(r) == path_file_stem(p@),
{
    std::path::Path::new(p).file_stem().map(|n| n.to_string_lossy().into_owned())
}

/// The final extension of the file name (`Path::extension`).
#[verifier::external_body]
pub(crate) fn extension(p: &str) -> (r: Option<String>)
    ensures
        opt_view(r) == path_extension(p@),
{
    std::path::Path::new(p).extension().map(|n| n.to_string_lossy().into_owned())
}

/// `base` with `p` appended, as `Path::join` does on Unix.
pub(crate) fn join(base: &str, p: &str) -> (r: String)
    ensures
        r@ == path_join(base@, p@),
        p@.len() > 0 && p@[0] == '/' ==> r@ == p@,
{
    let m = p.unicode_len();
    if m > 0 && p.get_char(0) == '/' {
        return copy_str(p);
    }
    let mut s = copy_str(base);
    let n = base.unicode_len();
    if n > 0 && base.get_char(n - 1) != '/' {
        push_char(&mut s, '/');
    }
    s.append(p);
    s
}

/// Whether `base` is a whole-component prefix of `p` (`Path::starts_with`).
#[verifier::external_body]
pub(crate) fn starts_with(p: &str, base: &str) -> (r: bool)
    ensures
        r == path_starts_with(p@, base@),
{
    std::path::Path::new(p).starts_with(base)
}

/// `p` relative to `base` (`Path::strip_prefix`). As documented, it fails
/// exactly when `base` is not a whole-component prefix of `p`.
#[verifier::external_body]
pub(crate) fn strip_prefix(p: &str, base: &str) -> (r: Option<String>)
    ensures
        opt_view(r) == path_strip_prefix(p@, base@),
        r is Some <==> path_starts_with(p@, base@),
{
    std::path::Path::new(p).strip_prefix(base).ok().map(|n| n.to_string_lossy().into_owned())
}

/// Whether two paths have the same components (`Path`'s `==`). It is an
/// equivalence (`Path` is `Eq`), so equal texts are equal paths.
#[verifier::external_body]
pub(crate) fn same_path(a: &str, b: &str) -> (r: bool)
    ensures
        r == path_eq(a@, b@),
        a@ == b@ ==> r,
{
    std::path::Path::new(a) == std::path::Path::new(b)
}

/// The components of a path (`Path::components`), each as text (the root
/// as `/`, the current folder as `.`, the parent folder as `..`).
#[verifier::external_body]
pub(crate) fn components(p: &str) -> (r: Vec<String>)
    ensures
        r@.map_values(|c: String| c@) == path_components(p@),
{
    std::path::Path::new(p).components().map(|c| c.as_os_str().to_string_lossy().into_owned()).collect()
}

/// The text in lower case (`str::to_lowercase`, which follows Unicode's
/// lower-case mappings; they are named, not restated).
#[verifier::external_body]
pub(crate) fn lowercase(s: &str) -> (r: String)
    ensures
        r@ == str_lowercase(s@),
{
    s.to_lowercase()
}

} // verus!
