//! Nodes of the folder tree shown beside a tab.

use vstd::prelude::*;
use crate::paths::{file_name, same_path, path_file_name, path_eq, starts_with, strip_prefix, components, join,
    lowercase, path_starts_with, path_strip_prefix, path_components, path_join, str_lowercase};
use crate::operation::strs_view;

verus! {

/// A folder in the tree, with its children once they are read.
#[derive(Debug)]
pub struct TreeNode {
    pub path: String,
    pub name: String,
    pub expanded: bool,
    pub children: Vec<TreeNode>,
    pub depth: usize,
}

/// The name a node shows for `path`: its last component; for the root, the
/// file system's label; otherwise the path itself.
pub open spec fn node_name(path: Seq<char>, filesystem_label: Seq<char>) -> Seq<char> {
    match path_file_name(path) {
        Some(n) => n,
        None => if path_eq(path, seq!['/']) {
            filesystem_label
        } else {
            path
        },
    }
}

impl TreeNode {
    /// A collapsed node for `path` at `depth`, named by its last component
    /// (the root by `filesystem_label`, as translated by the caller).
    pub fn new(path: String, depth: usize, filesystem_label: &str) -> (r: TreeNode)
        ensures
            r.path == path,
            r.name@ == node_name(path@, filesystem_label@),
            !r.expanded,
            r.children@.len() == 0,
            r.depth == depth,
    {
        let name = match file_name(path.as_str()) {
            Some(n) => n,
            None => {
                proof {
                    reveal_strlit("/");
                    assert("/"@ =~= seq!['/']);
                }
                if same_path(path.as_str(), "/") {
                    crate::text::copy_str(filesystem_label)
                } else {
                    path.clone()
                }
            },
        };
        TreeNode { path, name, expanded: false, children: Vec::new(), depth }
    }

    /// A collapsed node for `path` at `depth`, with the given name.
    pub fn new_with_name(path: String, name: String, depth: usize) -> (r: TreeNode)
        ensures
            r.path == path,
            r.name == name,
            !r.expanded,
            r.children@.len() == 0,
            r.depth == depth,
    {
        TreeNode { path, name, expanded: false, children: Vec::new(), depth }
    }
}

/// Whether some node of `nodes` before position `i` is at `path`.
pub open spec fn at_path_before(nodes: Seq<TreeNode>, path: Seq<char>, i: int) -> bool {
    exists|k: int| 0 <= k < i && path_eq(#[trigger] nodes[k].path@, path)
}

/// `b` is the forest `a` with the node at `path` collapsed: on each level,
/// the nodes before the first one at `path` have it collapsed among their
/// children, that node is closed and loses its children, and the nodes after
/// it are untouched.
pub open spec fn collapsed(a: Seq<TreeNode>, b: Seq<TreeNode>, path: Seq<char>) -> bool
    decreases a,
{
    &&& a.len() == b.len()
    &&& forall|i: int|
        0 <= i < a.len() ==> {
            &&& (#[trigger] b[i]).path == a[i].path
            &&& b[i].name == a[i].name
            &&& b[i].depth == a[i].depth
            &&& if at_path_before(a, path, i) {
                b[i] == a[i]
            } else if path_eq(a[i].path@, path) {
                !b[i].expanded && b[i].children@.len() == 0
            } else {
                b[i].expanded == a[i].expanded && collapsed(a[i].children@, b[i].children@, path)
            }
        }
}

/// Collapses the node at `path` in a forest (see [`collapsed`]).
pub fn collapse_in_nodes(nodes: &mut Vec<TreeNode>, path: &str)
    ensures
        collapsed(old(nodes)@, final(nodes)@, path@),
    decreases old(nodes)@,
{
    let ghost a = nodes@;
    let mut i: usize = 0;
    while i < nodes.len()
        invariant
            nodes@.len() == a.len(),
            a == old(nodes)@,
            i <= a.len(),
            !at_path_before(a, path@, i as int),
            forall|k: int| i <= k < a.len() ==> #[trigger] nodes@[k] == a[k],
            forall|k: int|
                0 <= k < i ==> {
                    &&& (#[trigger] nodes@[k]).path == a[k].path
                    &&& nodes@[k].name == a[k].name
                    &&& nodes@[k].depth == a[k].depth
                    &&& !path_eq(a[k].path@, path@)
                    &&& nodes@[k].expanded == a[k].expanded
                    &&& collapsed(a[k].children@, nodes@[k].children@, path@)
                },
        decreases a.len() - i,
    {
        if same_path(nodes[i].path.as_str(), path) {
            nodes[i].expanded = false;
            nodes[i].children = Vec::new();
            proof {
                let b = nodes@;
                assert forall|k: int| 0 <= k < a.len() implies {
                    &&& (#[trigger] b[k]).path == a[k].path
                    &&& b[k].name == a[k].name
                    &&& b[k].depth == a[k].depth
                    &&& if at_path_before(a, path@, k) {
                        b[k] == a[k]
                    } else if path_eq(a[k].path@, path@) {
                        !b[k].expanded && b[k].children@.len() == 0
                    } else {
                        b[k].expanded == a[k].expanded && collapsed(a[k].children@, b[k].children@, path@)
                    }
                } by {
                    if k < i {
                        if at_path_before(a, path@, k) {
                            let w = choose|w: int| 0 <= w < k && path_eq(#[trigger] a[w].path@, path@);
                            assert(at_path_before(a, path@, i as int));
                        }
                    } else if k > i {
                        assert(path_eq(a[i as int].path@, path@));
                        assert(at_path_before(a, path@, k));
                    }
                }
            }
            return;
        }
        let mut node = TreeNode::new_with_name(String::new(), String::new(), 0);
        nodes.set_and_swap(i, &mut node);
        assert(node == a[i as int]);
        proof {
            assert(decreases_to!(a => a[i as int]));
            assert(decreases_to!(a[i as int] => a[i as int].children));
            assert(decreases_to!(a[i as int].children => a[i as int].children@));
        }
        collapse_in_nodes(&mut node.children, path);
        nodes.set_and_swap(i, &mut node);
        proof {
            assert(!at_path_before(a, path@, i as int + 1)) by {
                if at_path_before(a, path@, i as int + 1) {
                    let w = choose|w: int| 0 <= w < i + 1 && path_eq(#[trigger] a[w].path@, path@);
                    if w < i {
                        assert(at_path_before(a, path@, i as int));
                    }
                }
            }
        }
        i = i + 1;
    }
    proof {
        let b = nodes@;
        assert forall|k: int| 0 <= k < a.len() implies !at_path_before(a, path@, k) by {
            if at_path_before(a, path@, k) {
                let w = choose|w: int| 0 <= w < k && path_eq(#[trigger] a[w].path@, path@);
                assert(at_path_before(a, path@, i as int));
            }
        }
    }
}

/// Whether a node at `path` lies in the forest.
pub open spec fn found_in(a: Seq<TreeNode>, path: Seq<char>) -> bool
    decreases a,
{
    exists|i: int| 0 <= i < a.len() && (path_eq((#[trigger] a[i]).path@, path) || found_in(a[i].children@, path))
}

/// Every node's depth leaves room for one more level.
pub open spec fn depths_ok(a: Seq<TreeNode>) -> bool
    decreases a,
{
    forall|i: int| 0 <= i < a.len() ==> (#[trigger] a[i]).depth < usize::MAX && depths_ok(a[i].children@)
}

/// Whether every node's depth leaves room for one more level (see
/// [`depths_ok`]), as opening a folder or adding a child asks.
pub fn depths_fit(nodes: &Vec<TreeNode>) -> (r: bool)
    ensures
        r == depths_ok(nodes@),
    decreases nodes@,
{
    let mut i: usize = 0;
    while i < nodes.len()
        invariant
            i <= nodes@.len(),
            forall|k: int| 0 <= k < i ==> (#[trigger] nodes@[k]).depth < usize::MAX && depths_ok(nodes@[k].children@),
        decreases nodes@.len() - i,
    {
        if nodes[i].depth == usize::MAX {
            return false;
        }
        proof {
            assert(decreases_to!(nodes@ => nodes@[i as int]));
            assert(decreases_to!(nodes@[i as int] => nodes@[i as int].children));
            assert(decreases_to!(nodes@[i as int].children => nodes@[i as int].children@));
        }
        if !depths_fit(&nodes[i].children) {
            return false;
        }
        i = i + 1;
    }
    true
}

/// Every node of the forest is at depth `d` or above it.
pub open spec fn depths_within(a: Seq<TreeNode>, d: int) -> bool
    decreases a,
{
    forall|i: int| 0 <= i < a.len() ==> (#[trigger] a[i]).depth <= d && depths_within(a[i].children@, d)
}

/// A forest whose depths stay within a bound below `usize::MAX` leaves room
/// for one more level everywhere.
pub proof fn lemma_within_ok(a: Seq<TreeNode>, d: int)
    requires
        depths_within(a, d),
        d < usize::MAX,
    ensures
        depths_ok(a),
    decreases a,
{
    assert forall|i: int| 0 <= i < a.len() implies (#[trigger] a[i]).depth < usize::MAX && depths_ok(a[i].children@) by {
        assert(decreases_to!(a => a[i]));
        assert(decreases_to!(a[i] => a[i].children));
        assert(decreases_to!(a[i].children => a[i].children@));
        lemma_within_ok(a[i].children@, d);
    }
}

proof fn lemma_within_mono(a: Seq<TreeNode>, d: int, e: int)
    requires
        depths_within(a, d),
        d <= e,
    ensures
        depths_within(a, e),
    decreases a,
{
    assert forall|i: int| 0 <= i < a.len() implies (#[trigger] a[i]).depth <= e && depths_within(a[i].children@, e) by {
        assert(decreases_to!(a => a[i]));
        assert(decreases_to!(a[i] => a[i].children));
        assert(decreases_to!(a[i].children => a[i].children@));
        lemma_within_mono(a[i].children@, d, e);
    }
}

proof fn lemma_empty_within(a: Seq<TreeNode>, d: int)
    requires
        a.len() == 0,
    ensures
        depths_within(a, d),
{
}

proof fn lemma_collapsed_within(a: Seq<TreeNode>, b: Seq<TreeNode>, path: Seq<char>, d: int)
    requires
        depths_within(a, d),
        collapsed(a, b, path),
    ensures
        depths_within(b, d),
    decreases a,
{
    assert forall|i: int| 0 <= i < b.len() implies (#[trigger] b[i]).depth <= d && depths_within(b[i].children@, d) by {
        assert(a[i].depth <= d && depths_within(a[i].children@, d));
        if at_path_before(a, path, i) {
        } else if path_eq(a[i].path@, path) {
            lemma_empty_within(b[i].children@, d);
        } else {
            assert(decreases_to!(a => a[i]));
            assert(decreases_to!(a[i] => a[i].children));
            assert(decreases_to!(a[i].children => a[i].children@));
            lemma_collapsed_within(a[i].children@, b[i].children@, path, d);
        }
    }
}

proof fn lemma_loaded_within(
    a: Seq<TreeNode>,
    b: Seq<TreeNode>,
    path: Seq<char>,
    paths: Seq<String>,
    label: Seq<char>,
    d: int,
)
    requires
        depths_within(a, d),
        loaded(a, b, path, paths, label),
    ensures
        depths_within(b, d + 1),
    decreases a,
{
    assert forall|i: int| 0 <= i < b.len() implies (#[trigger] b[i]).depth <= d + 1 && depths_within(
        b[i].children@,
        d + 1,
    ) by {
        assert(a[i].depth <= d && depths_within(a[i].children@, d));
        if exists|k: int| 0 <= k < i && (path_eq((#[trigger] a[k]).path@, path) || found_in(a[k].children@, path)) {
            lemma_within_mono(a[i].children@, d, d + 1);
        } else if path_eq(a[i].path@, path) {
            let c = b[i].children@;
            assert forall|k: int| 0 <= k < c.len() implies (#[trigger] c[k]).depth <= d + 1 && depths_within(
                c[k].children@,
                d + 1,
            ) by {
                lemma_empty_within(c[k].children@, d + 1);
            }
        } else if found_in(a[i].children@, path) {
            assert(decreases_to!(a => a[i]));
            assert(decreases_to!(a[i] => a[i].children));
            assert(decreases_to!(a[i].children => a[i].children@));
            lemma_loaded_within(a[i].children@, b[i].children@, path, paths, label, d);
        } else {
            lemma_within_mono(a[i].children@, d, d + 1);
        }
    }
}

/// Whether `c` are the children read for a node at `depth`: collapsed nodes
/// for the given paths, one level deeper, named as [`TreeNode::new`] names
/// them.
pub open spec fn fresh_children(c: Seq<TreeNode>, paths: Seq<String>, depth: int, label: Seq<char>) -> bool {
    &&& c.len() == paths.len()
    &&& forall|k: int|
        0 <= k < c.len() ==> {
            &&& (#[trigger] c[k]).path == paths[k]
            &&& c[k].name@ == node_name(paths[k]@, label)
            &&& !c[k].expanded
            &&& c[k].children@.len() == 0
            &&& c[k].depth == depth
        }
}

/// `b` is the forest `a` with the first node at `path` (in depth-first
/// order) opened, its children being those read from `paths`.
pub open spec fn loaded(a: Seq<TreeNode>, b: Seq<TreeNode>, path: Seq<char>, paths: Seq<String>, label: Seq<char>) -> bool
    decreases a,
{
    &&& a.len() == b.len()
    &&& forall|i: int|
        0 <= i < a.len() ==> {
            &&& (#[trigger] b[i]).path == a[i].path
            &&& b[i].name == a[i].name
            &&& b[i].depth == a[i].depth
            &&& if exists|k: int|
                0 <= k < i && (path_eq((#[trigger] a[k]).path@, path) || found_in(a[k].children@, path)) {
                b[i] == a[i]
            } else if path_eq(a[i].path@, path) {
                b[i].expanded && fresh_children(b[i].children@, paths, a[i].depth + 1, label)
            } else if found_in(a[i].children@, path) {
                b[i].expanded == a[i].expanded && loaded(a[i].children@, b[i].children@, path, paths, label)
            } else {
                b[i] == a[i]
            }
        }
}

/// Nodes for the children at `paths` of a node at `depth`.
fn children_nodes(paths: &Vec<String>, depth: usize, label: &str) -> (r: Vec<TreeNode>)
    requires
        depth < usize::MAX,
    ensures
        fresh_children(r@, paths@, depth + 1, label@),
{
    let mut out: Vec<TreeNode> = Vec::new();
    let mut k: usize = 0;
    while k < paths.len()
        invariant
            depth < usize::MAX,
            k <= paths@.len(),
            fresh_children(out@, paths@.subrange(0, k as int), depth + 1, label@),
        decreases paths@.len() - k,
    {
        out.push(TreeNode::new(paths[k].clone(), depth + 1, label));
        k = k + 1;
    }
    assert(paths@.subrange(0, k as int) =~= paths@);
    out
}

/// Whether a node at `path` lies in the forest.
pub fn contains_in(nodes: &Vec<TreeNode>, path: &str) -> (r: bool)
    ensures
        r == found_in(nodes@, path@),
    decreases nodes@,
{
    let mut i: usize = 0;
    while i < nodes.len()
        invariant
            i <= nodes@.len(),
            forall|k: int|
                0 <= k < i ==> !(path_eq((#[trigger] nodes@[k]).path@, path@) || found_in(nodes@[k].children@, path@)),
        decreases nodes@.len() - i,
    {
        if same_path(nodes[i].path.as_str(), path) {
            assert(path_eq(nodes@[i as int].path@, path@));
            return true;
        }
        proof {
            assert(decreases_to!(nodes@ => nodes@[i as int]));
            assert(decreases_to!(nodes@[i as int] => nodes@[i as int].children));
            assert(decreases_to!(nodes@[i as int].children => nodes@[i as int].children@));
        }
        if contains_in(&nodes[i].children, path) {
            assert(found_in(nodes@[i as int].children@, path@));
            return true;
        }
        i = i + 1;
    }
    proof {
        if found_in(nodes@, path@) {
            let w = choose|w: int|
                0 <= w < nodes@.len() && (path_eq((#[trigger] nodes@[w]).path@, path@) || found_in(nodes@[w].children@, path@));
            assert(!(path_eq(nodes@[w].path@, path@) || found_in(nodes@[w].children@, path@)));
        }
    }
    false
}

/// Opens the first node at `path` (depth first) with the children read at
/// `paths`; says whether there was one.
pub fn load_in_nodes(nodes: &mut Vec<TreeNode>, path: &str, paths: &Vec<String>, label: &str) -> (r: bool)
    requires
        depths_ok(old(nodes)@),
    ensures
        r == found_in(old(nodes)@, path@),
        r ==> loaded(old(nodes)@, final(nodes)@, path@, paths@, label@),
        !r ==> final(nodes)@ == old(nodes)@,
    decreases old(nodes)@,
{
    let ghost a = nodes@;
    let mut i: usize = 0;
    while i < nodes.len()
        invariant
            nodes@ == a,
            a == old(nodes)@,
            depths_ok(a),
            i <= a.len(),
            forall|k: int| 0 <= k < i ==> !(path_eq((#[trigger] a[k]).path@, path@) || found_in(a[k].children@, path@)),
        decreases a.len() - i,
    {
        assert(a[i as int].depth < usize::MAX && depths_ok(a[i as int].children@));
        if same_path(nodes[i].path.as_str(), path) {
            let depth = nodes[i].depth;
            let fresh = children_nodes(paths, depth, label);
            nodes[i].expanded = true;
            nodes[i].children = fresh;
            proof {
                let b = nodes@;
                assert(found_in(a, path@));
                assert forall|j: int| 0 <= j < a.len() implies {
                    &&& (#[trigger] b[j]).path == a[j].path
                    &&& b[j].name == a[j].name
                    &&& b[j].depth == a[j].depth
                    &&& if exists|k: int|
                        0 <= k < j && (path_eq((#[trigger] a[k]).path@, path@) || found_in(a[k].children@, path@)) {
                        b[j] == a[j]
                    } else if path_eq(a[j].path@, path@) {
                        b[j].expanded && fresh_children(b[j].children@, paths@, a[j].depth + 1, label@)
                    } else if found_in(a[j].children@, path@) {
                        b[j].expanded == a[j].expanded && loaded(a[j].children@, b[j].children@, path@, paths@, label@)
                    } else {
                        b[j] == a[j]
                    }
                } by {
                    if j > i {
                        assert(path_eq(a[i as int].path@, path@));
                    }
                }
            }
            return true;
        }
        let deeper = contains_in(&nodes[i].children, path);
        if deeper {
            let mut node = TreeNode::new_with_name(String::new(), String::new(), 0);
            nodes.set_and_swap(i, &mut node);
            proof {
                assert(decreases_to!(a => a[i as int]));
                assert(decreases_to!(a[i as int] => a[i as int].children));
                assert(decreases_to!(a[i as int].children => a[i as int].children@));
            }
            let found = load_in_nodes(&mut node.children, path, paths, label);
            nodes.set_and_swap(i, &mut node);
            assert(found);
            proof {
                let b = nodes@;
                assert(found_in(a, path@));
                assert forall|j: int| 0 <= j < a.len() implies {
                    &&& (#[trigger] b[j]).path == a[j].path
                    &&& b[j].name == a[j].name
                    &&& b[j].depth == a[j].depth
                    &&& if exists|k: int|
                        0 <= k < j && (path_eq((#[trigger] a[k]).path@, path@) || found_in(a[k].children@, path@)) {
                        b[j] == a[j]
                    } else if path_eq(a[j].path@, path@) {
                        b[j].expanded && fresh_children(b[j].children@, paths@, a[j].depth + 1, label@)
                    } else if found_in(a[j].children@, path@) {
                        b[j].expanded == a[j].expanded && loaded(a[j].children@, b[j].children@, path@, paths@, label@)
                    } else {
                        b[j] == a[j]
                    }
                } by {
                    if j > i {
                        assert(found_in(a[i as int].children@, path@));
                    }
                }
            }
            return true;
        }
        i = i + 1;
    }
    proof {
        if found_in(a, path@) {
            let w = choose|w: int| 0 <= w < a.len() && (path_eq((#[trigger] a[w]).path@, path@) || found_in(a[w].children@, path@));
            assert(!(path_eq(a[w].path@, path@) || found_in(a[w].children@, path@)));
        }
    }
    false
}

/// Whether a path is among `paths` (as paths compare).
pub open spec fn path_among(paths: Seq<String>, p: Seq<char>) -> bool {
    exists|k: int| 0 <= k < paths.len() && path_eq((#[trigger] paths[k])@, p)
}

/// Whether a stored path is not the same path as `p`.
pub open spec fn other_path(p: Seq<char>) -> spec_fn(String) -> bool {
    |s: String| !path_eq(s@, p)
}

/// Dropping the paths that are `p` from a list without such a path keeps
/// the list as it is.
proof fn lemma_filter_keeps_all(s: Seq<String>, p: Seq<char>)
    requires
        !path_among(s, p),
    ensures
        s.filter(other_path(p)) == s,
    decreases s.len(),
{
    reveal(Seq::filter);
    if s.len() > 0 {
        let d = s.drop_last();
        assert forall|k: int| 0 <= k < d.len() implies !path_eq((#[trigger] d[k])@, p) by {
            assert(d[k] == s[k]);
        }
        lemma_filter_keeps_all(d, p);
        assert(!path_eq(s[s.len() - 1]@, p));
        assert(d.push(s.last()) =~= s);
    }
}

/// Whether a path is among the list depends only on the texts of the list.
proof fn lemma_among_by_view(a: Seq<String>, b: Seq<String>, q: Seq<char>)
    requires
        strs_view(a) == strs_view(b),
    ensures
        path_among(a, q) == path_among(b, q),
{
    assert(strs_view(a).len() == a.len() && strs_view(b).len() == b.len());
    if path_among(a, q) {
        let k = choose|k: int| 0 <= k < a.len() && path_eq((#[trigger] a[k])@, q);
        assert(strs_view(a)[k] == a[k]@ && strs_view(b)[k] == b[k]@);
        assert(path_eq(b[k]@, q));
    }
    if path_among(b, q) {
        let k = choose|k: int| 0 <= k < b.len() && path_eq((#[trigger] b[k])@, q);
        assert(strs_view(a)[k] == a[k]@ && strs_view(b)[k] == b[k]@);
        assert(path_eq(a[k]@, q));
    }
}

/// Toggling a folder (as [`NavTreeState::toggle_expand`] changes the open
/// folders `e0` into `e1`) flips whether it is open and leaves every other
/// folder as it was.
pub proof fn lemma_toggle_flips_one(e0: Seq<String>, e1: Seq<String>, p: Seq<char>, q: Seq<char>)
    requires
        path_among(e0, p) ==> e1 == e0.filter(other_path(p)),
        !path_among(e0, p) ==> strs_view(e1) == strs_view(e0).push(p),
    ensures
        path_among(e1, p) == !path_among(e0, p),
        !path_eq(q, p) ==> path_among(e1, q) == path_among(e0, q),
{
    if path_among(e0, p) {
        let f = other_path(p);
        if path_among(e1, p) {
            let k = choose|k: int| 0 <= k < e1.len() && path_eq((#[trigger] e1[k])@, p);
            e0.lemma_filter_pred(f, k);
        }
        if !path_eq(q, p) {
            if path_among(e0, q) {
                let k = choose|k: int| 0 <= k < e0.len() && path_eq((#[trigger] e0[k])@, q);
                assert(f(e0[k]));
                e0.lemma_filter_contains(f, k);
                let j = choose|j: int| 0 <= j < e1.len() && e1[j] == e0[k];
                assert(path_eq(e1[j]@, q));
            }
            if path_among(e1, q) {
                let k = choose|k: int| 0 <= k < e1.len() && path_eq((#[trigger] e1[k])@, q);
                assert(e1.contains(e1[k]));
                e0.lemma_filter_contains_rev(f, e1[k]);
                let j = choose|j: int| 0 <= j < e0.len() && e0[j] == e1[k];
                assert(path_eq(e0[j]@, q));
            }
        }
    } else {
        let n = e0.len();
        assert(strs_view(e1).len() == e1.len() && strs_view(e0).len() == n);
        assert(strs_view(e1)[n as int] == e1[n as int]@);
        assert(path_eq(e1[n as int]@, p));
        if path_among(e1, q) {
            let k = choose|k: int| 0 <= k < e1.len() && path_eq((#[trigger] e1[k])@, q);
            if k < n {
                assert(strs_view(e1)[k] == e1[k]@ && strs_view(e0)[k] == e0[k]@);
                assert(path_eq(e0[k]@, q));
            }
        }
        if path_among(e0, q) {
            let k = choose|k: int| 0 <= k < e0.len() && path_eq((#[trigger] e0[k])@, q);
            assert(strs_view(e1)[k] == e1[k]@ && strs_view(e0)[k] == e0[k]@);
            assert(path_eq(e1[k]@, q));
        }
    }
}

/// No folder is among the open folders twice (as `Path`'s `==` compares).
pub open spec fn distinct_paths(e: Seq<String>) -> bool {
    forall|i: int, j: int| 0 <= i < j < e.len() ==> !path_eq((#[trigger] e[i])@, (#[trigger] e[j])@)
}

/// Opening a folder that is not open, or closing one that is (as
/// [`NavTreeState::toggle_expand`] and [`NavTreeState::open_folder`] change
/// the open folders), keeps every folder among them at most once, as in a
/// set.
pub proof fn lemma_toggle_keeps_distinct(e0: Seq<String>, e1: Seq<String>, p: Seq<char>)
    requires
        distinct_paths(e0),
        path_among(e0, p) ==> e1 == e0.filter(other_path(p)),
        !path_among(e0, p) ==> strs_view(e1) == strs_view(e0).push(p),
    ensures
        distinct_paths(e1),
{
    if path_among(e0, p) {
        let f = other_path(p);
        assert forall|i: int, j: int| 0 <= i < j < e1.len() implies !path_eq((#[trigger] e1[i])@, (#[trigger] e1[j])@) by {
            e0.lemma_filter_pred(f, i);
            e0.lemma_filter_pred(f, j);
            lemma_filter_index_order(e0, f, i, j);
        }
    } else {
        let n = e0.len();
        assert(strs_view(e1).len() == e1.len() && strs_view(e0).len() == n);
        assert forall|i: int, j: int| 0 <= i < j < e1.len() implies !path_eq((#[trigger] e1[i])@, (#[trigger] e1[j])@) by {
            assert(strs_view(e1)[i] == e1[i]@ && strs_view(e1)[j] == e1[j]@);
            if j < n {
                assert(strs_view(e0)[i] == e0[i]@ && strs_view(e0)[j] == e0[j]@);
            } else {
                assert(strs_view(e0)[i] == e0[i]@);
                assert(e1[j]@ == p);
                if path_eq(e1[i]@, p) {
                    assert(path_eq(e0[i]@, p));
                }
            }
        }
    }
}

/// Distinct positions of a filtered list come from distinct positions of
/// the list, in the same order.
proof fn lemma_filter_index_order(e: Seq<String>, f: spec_fn(String) -> bool, i: int, j: int)
    requires
        distinct_paths(e),
        0 <= i < j < e.filter(f).len(),
    ensures
        !path_eq(e.filter(f)[i]@, e.filter(f)[j]@),
    decreases e.len(),
{
    reveal(Seq::filter);
    let d = e.drop_last();
    assert forall|a: int, b: int| 0 <= a < b < d.len() implies !path_eq((#[trigger] d[a])@, (#[trigger] d[b])@) by {
        assert(d[a] == e[a] && d[b] == e[b]);
    }
    if f(e.last()) {
        let fd = d.filter(f);
        assert(e.filter(f) == fd.push(e.last()));
        if j < fd.len() {
            lemma_filter_index_order(d, f, i, j);
        } else {
            assert(e.filter(f)[j] == e.last());
            assert(fd.contains(fd[i]));
            d.lemma_filter_contains_rev(f, fd[i]);
            let k = choose|k: int| 0 <= k < d.len() && d[k] == fd[i];
            assert(e[k] == d[k]);
            assert(!path_eq(e[k]@, e[e.len() - 1]@));
        }
    } else {
        assert(e.filter(f) == d.filter(f));
        lemma_filter_index_order(d, f, i, j);
    }
}

/// Toggling a folder twice (each time as [`NavTreeState::toggle_expand`]
/// changes the open folders) leaves every folder open or closed as before.
pub proof fn lemma_toggle_twice(e0: Seq<String>, e1: Seq<String>, e2: Seq<String>, p: Seq<char>, q: Seq<char>)
    requires
        path_among(e0, p) ==> e1 == e0.filter(other_path(p)),
        !path_among(e0, p) ==> strs_view(e1) == strs_view(e0).push(p),
        path_among(e1, p) ==> e2 == e1.filter(other_path(p)),
        !path_among(e1, p) ==> strs_view(e2) == strs_view(e1).push(p),
    ensures
        path_among(e2, q) == path_among(e0, q),
{
    lemma_toggle_flips_one(e0, e1, p, q);
    lemma_toggle_flips_one(e1, e2, p, q);
    lemma_toggle_flips_one(e0, e1, p, p);
    lemma_toggle_flips_one(e1, e2, p, p);
    if path_eq(q, p) {
        lemma_among_same_path(e0, p, q);
        lemma_among_same_path(e2, p, q);
    }
}

/// Paths that are the same path are among a list together.
proof fn lemma_among_same_path(e: Seq<String>, p: Seq<char>, q: Seq<char>)
    requires
        path_eq(q, p),
    ensures
        path_among(e, q) == path_among(e, p),
{
    if path_among(e, q) {
        let k = choose|k: int| 0 <= k < e.len() && path_eq((#[trigger] e[k])@, q);
        assert(path_eq(e[k]@, p));
    }
    if path_among(e, p) {
        let k = choose|k: int| 0 <= k < e.len() && path_eq((#[trigger] e[k])@, p);
        assert(path_eq(e[k]@, q));
    }
}

/// Opening a closed folder and then closing it gives back the open folders
/// as they were.
pub proof fn lemma_open_then_close(e0: Seq<String>, e1: Seq<String>, e2: Seq<String>, p: Seq<char>)
    requires
        !path_among(e0, p),
        strs_view(e1) == strs_view(e0).push(p),
        e2 == e1.filter(other_path(p)),
    ensures
        path_among(e1, p),
        strs_view(e2) == strs_view(e0),
{
    let n = e0.len();
    assert(strs_view(e1).len() == e1.len() && strs_view(e0).len() == n);
    assert(strs_view(e1)[n as int] == e1[n as int]@);
    assert(path_eq(e1[n as int]@, p));
    let d = e1.drop_last();
    assert(strs_view(d) =~= strs_view(e0)) by {
        assert forall|k: int| 0 <= k < n implies strs_view(d)[k] == strs_view(e0)[k] by {
            assert(strs_view(e1)[k] == e1[k]@ && strs_view(e0)[k] == e0[k]@);
            assert(d[k] == e1[k]);
        }
    }
    lemma_among_by_view(d, e0, p);
    lemma_filter_keeps_all(d, p);
    reveal(Seq::filter);
    assert(e1.drop_last() == d);
    assert(!other_path(p)(e1.last()));
    assert(e1.filter(other_path(p)) == d.filter(other_path(p)));
}

/// The folder tree beside a tab: its top-level folders, the folders that
/// are open, and the folder the tab shows.
#[derive(Debug)]
pub struct NavTreeState {
    pub roots: Vec<TreeNode>,
    pub expanded_paths: Vec<String>,
    pub current_path: Option<String>,
}

impl NavTreeState {
    /// A tree with the home folder, the file system's root and the mounted
    /// volumes at `mounts` on top, all closed.
    pub fn new(home: String, home_label: String, filesystem_label: &str, mounts: &Vec<String>) -> (r: NavTreeState)
        ensures
            r.roots@.len() == 2 + mounts@.len(),
            r.roots@[0].path == home && r.roots@[0].name == home_label && r.roots@[0].depth == 0,
            r.roots@[1].path@ == "/"@ && r.roots@[1].name@ == filesystem_label@ && r.roots@[1].depth == 0,
            fresh_children(r.roots@.subrange(2, r.roots@.len() as int), mounts@, 0, filesystem_label@),
            forall|i: int| 0 <= i < 2 ==> !(#[trigger] r.roots@[i]).expanded && r.roots@[i].children@.len() == 0,
            r.expanded_paths@.len() == 0,
            r.current_path is None,
            depths_within(r.roots@, 0),
    {
        let mut roots: Vec<TreeNode> = Vec::new();
        roots.push(TreeNode::new_with_name(home, home_label, 0));
        roots.push(TreeNode::new_with_name(String::from_str("/"), crate::text::copy_str(filesystem_label), 0));
        let ghost r0 = roots@[0];
        let ghost r1 = roots@[1];
        proof {
            reveal_strlit("/");
        }
        let mut k: usize = 0;
        assert(roots@.subrange(2, 2) =~= Seq::<TreeNode>::empty());
        while k < mounts.len()
            invariant
                k <= mounts@.len(),
                roots@.len() == 2 + k,
                roots@[0] == r0,
                roots@[1] == r1,
                fresh_children(roots@.subrange(2, roots@.len() as int), mounts@.subrange(0, k as int), 0, filesystem_label@),
            decreases mounts@.len() - k,
        {
            let ghost before = roots@;
            roots.push(TreeNode::new(mounts[k].clone(), 0, filesystem_label));
            assert(roots@.subrange(2, roots@.len() as int) =~= before.subrange(2, before.len() as int).push(roots@.last()));
            k = k + 1;
        }
        assert(mounts@.subrange(0, k as int) =~= mounts@);
        proof {
            let a = roots@;
            assert forall|i: int| 0 <= i < a.len() implies (#[trigger] a[i]).depth <= 0 && depths_within(
                a[i].children@,
                0,
            ) by {
                if i >= 2 {
                    assert(a[i] == a.subrange(2, a.len() as int)[i - 2]);
                }
                lemma_empty_within(a[i].children@, 0);
            }
        }
        NavTreeState { roots, expanded_paths: Vec::new(), current_path: None }
    }

    /// Whether the folder at `path` is open.
    pub fn is_expanded(&self, path: &str) -> (r: bool)
        ensures
            r == path_among(self.expanded_paths@, path@),
    {
        let mut k: usize = 0;
        while k < self.expanded_paths.len()
            invariant
                k <= self.expanded_paths@.len(),
                forall|j: int| 0 <= j < k ==> !path_eq((#[trigger] self.expanded_paths@[j])@, path@),
            decreases self.expanded_paths@.len() - k,
        {
            if same_path(self.expanded_paths[k].as_str(), path) {
                assert(path_eq(self.expanded_paths@[k as int]@, path@));
                return true;
            }
            k = k + 1;
        }
        false
    }

    /// Opens or closes the folder at `path`: an open folder is closed (and
    /// loses its children); a closed one is opened with the children read
    /// at `children`.
    pub fn toggle_expand(&mut self, path: &str, children: &Vec<String>, filesystem_label: &str)
        requires
            !path_among(old(self).expanded_paths@, path@) ==> depths_ok(old(self).roots@),
        ensures
            final(self).current_path == old(self).current_path,
            forall|d: int| #[trigger] depths_within(old(self).roots@, d) ==> depths_within(final(self).roots@, d + 1),
            path_among(old(self).expanded_paths@, path@) ==> {
                &&& final(self).expanded_paths@ == old(self).expanded_paths@.filter(other_path(path@))
                &&& collapsed(old(self).roots@, final(self).roots@, path@)
            },
            !path_among(old(self).expanded_paths@, path@) ==> {
                &&& strs_view(final(self).expanded_paths@) == strs_view(old(self).expanded_paths@).push(path@)
                &&& found_in(old(self).roots@, path@) ==> loaded(
                    old(self).roots@,
                    final(self).roots@,
                    path@,
                    children@,
                    filesystem_label@,
                )
                &&& !found_in(old(self).roots@, path@) ==> final(self).roots@ == old(self).roots@
            },
    {
        if self.is_expanded(path) {
            let ghost before = self.expanded_paths@;
            let mut kept: Vec<String> = Vec::new();
            let mut k: usize = 0;
            assert(before.subrange(0, 0).filter(other_path(path@)) =~= Seq::<String>::empty()) by {
                reveal(Seq::filter);
            }
            while k < self.expanded_paths.len()
                invariant
                    self.expanded_paths@ == before,
                    k <= before.len(),
                    kept@ == before.subrange(0, k as int).filter(other_path(path@)),
                decreases before.len() - k,
            {
                let s = &self.expanded_paths[k];
                assert(before.subrange(0, k as int + 1).filter(other_path(path@)) == if other_path(path@)(before[k as int]) {
                    before.subrange(0, k as int).filter(other_path(path@)).push(before[k as int])
                } else {
                    before.subrange(0, k as int).filter(other_path(path@))
                }) by {
                    reveal(Seq::filter);
                    assert(before.subrange(0, k as int + 1).drop_last() =~= before.subrange(0, k as int));
                }
                if !same_path(s.as_str(), path) {
                    kept.push(s.clone());
                }
                k = k + 1;
            }
            assert(before.subrange(0, k as int) =~= before);
            self.expanded_paths = kept;
            let ghost a = self.roots@;
            collapse_in_nodes(&mut self.roots, path);
            proof {
                assert forall|d: int| #[trigger] depths_within(a, d) implies depths_within(self.roots@, d + 1) by {
                    lemma_collapsed_within(a, self.roots@, path@, d);
                    lemma_within_mono(self.roots@, d, d + 1);
                }
            }
        } else {
            let ghost before = self.expanded_paths@;
            self.expanded_paths.push(crate::text::copy_str(path));
            assert(strs_view(self.expanded_paths@) =~= strs_view(before).push(path@));
            let ghost a = self.roots@;
            let found = load_in_nodes(&mut self.roots, path, children, filesystem_label);
            proof {
                assert forall|d: int| #[trigger] depths_within(a, d) implies depths_within(self.roots@, d + 1) by {
                    if found {
                        lemma_loaded_within(a, self.roots@, path@, children@, filesystem_label@, d);
                    } else {
                        lemma_within_mono(a, d, d + 1);
                    }
                }
            }
        }
    }
}

/// Among the first `n` top-level folders, the deepest (by number of
/// components) that holds `target`; of equally deep ones, the last.
pub open spec fn matching_root(roots: Seq<TreeNode>, target: Seq<char>, n: nat) -> Option<int>
    decreases n,
{
    if n == 0 {
        None
    } else {
        let best = matching_root(roots, target, (n - 1) as nat);
        let i = n - 1;
        if path_starts_with(target, roots[i].path@) && (best matches Some(b) ==> path_components(roots[i].path@).len()
            >= path_components(roots[b].path@).len()) {
            Some(i)
        } else {
            best
        }
    }
}

/// The folders from `start` down through each of `comps`, `start` first.
pub open spec fn descend(start: Seq<char>, comps: Seq<Seq<char>>) -> Seq<Seq<char>>
    decreases comps.len(),
{
    if comps.len() == 0 {
        seq![start]
    } else {
        descend(start, comps.drop_last()).push(path_join(descend(start, comps.drop_last()).last(), comps.last()))
    }
}

proof fn lemma_matching_root(roots: Seq<TreeNode>, target: Seq<char>, n: nat)
    ensures
        matching_root(roots, target, n) matches Some(b) ==> 0 <= b < n && path_starts_with(target, roots[b].path@),
    decreases n,
{
    if n > 0 {
        lemma_matching_root(roots, target, (n - 1) as nat);
    }
}

proof fn lemma_descend_nonempty(start: Seq<char>, comps: Seq<Seq<char>>)
    ensures
        descend(start, comps).len() == comps.len() + 1,
        descend(start, comps)[0] == start,
    decreases comps.len(),
{
    if comps.len() > 0 {
        lemma_descend_nonempty(start, comps.drop_last());
    }
}

/// The folders to open, in order, to show `target` in the tree: the
/// top-level folder that holds it (see [`matching_root`]), then each folder
/// down to `target` itself; none when no top-level folder holds it.
pub fn expand_plan(roots: &Vec<TreeNode>, target: &str) -> (r: Option<Vec<String>>)
    ensures
        match matching_root(roots@, target@, roots@.len() as nat) {
            None => r is None,
            Some(i) => r matches Some(v) && v@.map_values(|s: String| s@) == descend(
                roots@[i].path@,
                path_components(path_strip_prefix(target@, roots@[i].path@)->0),
            ),
        },
{
    let mut best: Option<usize> = None;
    let mut best_count: usize = 0;
    let mut i: usize = 0;
    while i < roots.len()
        invariant
            i <= roots@.len(),
            (best is Some) == (matching_root(roots@, target@, i as nat) is Some),
            best is Some ==> best->0 as int == matching_root(roots@, target@, i as nat)->0,
            best matches Some(b) ==> b < i && best_count == path_components(roots@[b as int].path@).len(),
        decreases roots@.len() - i,
    {
        proof {
            lemma_matching_root(roots@, target@, i as nat);
        }
        if starts_with(target, roots[i].path.as_str()) {
            let count = components(roots[i].path.as_str()).len();
            let better = match best {
                Some(_) => count >= best_count,
                None => true,
            };
            if better {
                best = Some(i);
                best_count = count;
            }
        }
        i = i + 1;
    }
    proof {
        lemma_matching_root(roots@, target@, roots@.len() as nat);
    }
    let b = match best {
        Some(b) => b,
        None => return None,
    };
    let root_path = roots[b].path.clone();
    let relative = match strip_prefix(target, root_path.as_str()) {
        Some(rel) => rel,
        None => return None,
    };
    let comps = components(relative.as_str());
    let ghost cv = comps@.map_values(|c: String| c@);
    let mut plan: Vec<String> = Vec::new();
    let ghost rv = root_path@;
    plan.push(root_path);
    assert(plan@.map_values(|s: String| s@) =~= descend(rv, cv.subrange(0, 0)));
    let mut k: usize = 0;
    while k < comps.len()
        invariant
            k <= comps@.len(),
            cv == comps@.map_values(|c: String| c@),
            plan@.map_values(|s: String| s@) == descend(rv, cv.subrange(0, k as int)),
            plan@.len() == k + 1,
        decreases comps@.len() - k,
    {
        proof {
            lemma_descend_nonempty(rv, cv.subrange(0, k as int));
        }
        let last = plan.len() - 1;
        let next = join(plan[last].as_str(), comps[k].as_str());
        let ghost before = plan@.map_values(|s: String| s@);
        plan.push(next);
        proof {
            assert(cv.subrange(0, k as int + 1).drop_last() =~= cv.subrange(0, k as int));
            assert(cv.subrange(0, k as int + 1).last() == cv[k as int]);
            assert(before.last() == plan@[last as int]@);
            assert(plan@.map_values(|s: String| s@) =~= before.push(path_join(before.last(), cv[k as int])));
        }
        k = k + 1;
    }
    assert(cv.subrange(0, k as int) =~= cv);
    Some(plan)
}

/// The position, from `k` on, of the first child whose lower-case name
/// comes after `lower` (the end if none).
pub open spec fn insert_position(children: Seq<TreeNode>, lower: Seq<char>, k: int) -> int
    decreases children.len() - k,
{
    if k >= children.len() || k < 0 {
        children.len() as int
    } else if crate::theme_catalog::lex_lt(lower, str_lowercase(children[k].name@)) {
        k
    } else {
        insert_position(children, lower, k + 1)
    }
}

/// Whether some child of `children` is at `child`.
pub open spec fn has_child(children: Seq<TreeNode>, child: Seq<char>) -> bool {
    exists|k: int| 0 <= k < children.len() && path_eq((#[trigger] children[k]).path@, child)
}

/// Whether `n` is the node that a hidden folder at `child` gets below a
/// node at `depth`.
pub open spec fn new_child_node(n: TreeNode, child: Seq<char>, depth: int, label: Seq<char>) -> bool {
    &&& n.path@ == child
    &&& n.name@ == node_name(child, label)
    &&& !n.expanded
    &&& n.children@.len() == 0
    &&& n.depth == depth
}

/// `b` is the forest `a` where the first node at `parent` (depth first) has
/// a child at `child`: where it has none and `child_is_dir`, one is added,
/// placed by lower-case name among the others.
pub open spec fn ensured(
    a: Seq<TreeNode>,
    b: Seq<TreeNode>,
    parent: Seq<char>,
    child: Seq<char>,
    child_is_dir: bool,
    label: Seq<char>,
) -> bool
    decreases a,
{
    &&& a.len() == b.len()
    &&& forall|i: int|
        0 <= i < a.len() ==> {
            &&& (#[trigger] b[i]).path == a[i].path
            &&& b[i].name == a[i].name
            &&& b[i].depth == a[i].depth
            &&& b[i].expanded == a[i].expanded
            &&& if exists|k: int|
                0 <= k < i && (path_eq((#[trigger] a[k]).path@, parent) || found_in(a[k].children@, parent)) {
                b[i] == a[i]
            } else if path_eq(a[i].path@, parent) {
                if has_child(a[i].children@, child) || !child_is_dir {
                    b[i].children@ == a[i].children@
                } else {
                    let pos = insert_position(a[i].children@, str_lowercase(node_name(child, label)), 0);
                    &&& b[i].children@.len() == a[i].children@.len() + 1
                    &&& b[i].children@.subrange(0, pos) == a[i].children@.subrange(0, pos)
                    &&& new_child_node(b[i].children@[pos], child, a[i].depth + 1, label)
                    &&& b[i].children@.subrange(pos + 1, b[i].children@.len() as int) == a[i].children@.subrange(
                        pos,
                        a[i].children@.len() as int,
                    )
                }
            } else if found_in(a[i].children@, parent) {
                ensured(a[i].children@, b[i].children@, parent, child, child_is_dir, label)
            } else {
                b[i] == a[i]
            }
        }
}

proof fn lemma_insert_position_bounds(children: Seq<TreeNode>, lower: Seq<char>, k: int)
    requires
        0 <= k <= children.len(),
    ensures
        k <= insert_position(children, lower, k) <= children.len(),
    decreases children.len() - k,
{
    if k < children.len() {
        lemma_insert_position_bounds(children, lower, k + 1);
    }
}

proof fn lemma_ensured_within(
    a: Seq<TreeNode>,
    b: Seq<TreeNode>,
    parent: Seq<char>,
    child: Seq<char>,
    child_is_dir: bool,
    label: Seq<char>,
    d: int,
)
    requires
        depths_within(a, d),
        ensured(a, b, parent, child, child_is_dir, label),
    ensures
        depths_within(b, d + 1),
    decreases a,
{
    assert forall|i: int| 0 <= i < b.len() implies (#[trigger] b[i]).depth <= d + 1 && depths_within(
        b[i].children@,
        d + 1,
    ) by {
        assert(a[i].depth <= d && depths_within(a[i].children@, d));
        lemma_within_mono(a[i].children@, d, d + 1);
        if exists|k: int| 0 <= k < i && (path_eq((#[trigger] a[k]).path@, parent) || found_in(a[k].children@, parent)) {
        } else if path_eq(a[i].path@, parent) {
            if has_child(a[i].children@, child) || !child_is_dir {
            } else {
                let ac = a[i].children@;
                let bc = b[i].children@;
                let pos = insert_position(ac, str_lowercase(node_name(child, label)), 0);
                lemma_insert_position_bounds(ac, str_lowercase(node_name(child, label)), 0);
                assert forall|k: int| 0 <= k < bc.len() implies (#[trigger] bc[k]).depth <= d + 1 && depths_within(
                    bc[k].children@,
                    d + 1,
                ) by {
                    if k < pos {
                        assert(bc[k] == bc.subrange(0, pos)[k]);
                        assert(ac[k] == ac.subrange(0, pos)[k]);
                        assert(ac[k].depth <= d + 1 && depths_within(ac[k].children@, d + 1));
                    } else if k == pos {
                        lemma_empty_within(bc[k].children@, d + 1);
                    } else {
                        assert(bc[k] == bc.subrange(pos + 1, bc.len() as int)[k - pos - 1]);
                        assert(ac[k - 1] == ac.subrange(pos, ac.len() as int)[k - pos - 1]);
                        assert(ac[k - 1].depth <= d + 1 && depths_within(ac[k - 1].children@, d + 1));
                    }
                }
            }
        } else if found_in(a[i].children@, parent) {
            assert(decreases_to!(a => a[i]));
            assert(decreases_to!(a[i] => a[i].children));
            assert(decreases_to!(a[i].children => a[i].children@));
            lemma_ensured_within(a[i].children@, b[i].children@, parent, child, child_is_dir, label, d);
        } else {
        }
    }
}

/// Gives the children of a node a child at `child` if it has none and
/// `child_is_dir`, placed by lower-case name.
fn ensure_among_children(
    children: &mut Vec<TreeNode>,
    child: &str,
    child_is_dir: bool,
    depth: usize,
    label: &str,
)
    requires
        depth < usize::MAX,
    ensures
        if has_child(old(children)@, child@) || !child_is_dir {
            final(children)@ == old(children)@
        } else {
            let pos = insert_position(old(children)@, str_lowercase(node_name(child@, label@)), 0);
            &&& final(children)@.len() == old(children)@.len() + 1
            &&& final(children)@.subrange(0, pos) == old(children)@.subrange(0, pos)
            &&& new_child_node(final(children)@[pos], child@, depth + 1, label@)
            &&& final(children)@.subrange(pos + 1, final(children)@.len() as int) == old(children)@.subrange(
                pos,
                old(children)@.len() as int,
            )
        },
{
    let ghost a = children@;
    let mut k: usize = 0;
    while k < children.len()
        invariant
            children@ == a,
            k <= a.len(),
            forall|j: int| 0 <= j < k ==> !path_eq((#[trigger] a[j]).path@, child@),
        decreases a.len() - k,
    {
        if same_path(children[k].path.as_str(), child) {
            assert(path_eq(a[k as int].path@, child@));
            return;
        }
        k = k + 1;
    }
    if !child_is_dir {
        return;
    }
    let node = TreeNode::new(crate::text::copy_str(child), depth + 1, label);
    let lower = lowercase(node.name.as_str());
    let ghost lv = lower@;
    let mut p: usize = 0;
    let mut done = false;
    while !done && p < children.len()
        invariant
            children@ == a,
            p <= a.len(),
            lv == lower@,
            insert_position(a, lv, 0) == insert_position(a, lv, p as int),
            done ==> p < a.len() && crate::theme_catalog::lex_lt(lv, str_lowercase(a[p as int].name@)),
        decreases a.len() - p + (if done {
            0int
        } else {
            1int
        }),
    {
        let other = lowercase(children[p].name.as_str());
        if crate::theme_catalog::lex_less(lower.as_str(), other.as_str()) {
            done = true;
        } else {
            p = p + 1;
        }
    }
    assert(insert_position(a, lv, p as int) == p);
    children.insert(p, node);
    assert(children@.subrange(0, p as int) =~= a.subrange(0, p as int));
    assert(children@.subrange(p as int + 1, children@.len() as int) =~= a.subrange(p as int, a.len() as int));
}

/// Makes sure that the first node at `parent` (depth first) has a child at
/// `child` (see [`ensured`]); says whether there was such a node.
pub fn ensure_in_nodes(nodes: &mut Vec<TreeNode>, parent: &str, child: &str, child_is_dir: bool, label: &str) -> (r: bool)
    requires
        depths_ok(old(nodes)@),
    ensures
        r == found_in(old(nodes)@, parent@),
        r ==> ensured(old(nodes)@, final(nodes)@, parent@, child@, child_is_dir, label@),
        !r ==> final(nodes)@ == old(nodes)@,
    decreases old(nodes)@,
{
    let ghost a = nodes@;
    let mut i: usize = 0;
    while i < nodes.len()
        invariant
            nodes@ == a,
            a == old(nodes)@,
            depths_ok(a),
            i <= a.len(),
            forall|k: int| 0 <= k < i ==> !(path_eq((#[trigger] a[k]).path@, parent@) || found_in(a[k].children@, parent@)),
        decreases a.len() - i,
    {
        assert(a[i as int].depth < usize::MAX && depths_ok(a[i as int].children@));
        let hit = same_path(nodes[i].path.as_str(), parent);
        let deeper = !hit && contains_in(&nodes[i].children, parent);
        if hit || deeper {
            let mut node = TreeNode::new_with_name(String::new(), String::new(), 0);
            nodes.set_and_swap(i, &mut node);
            if hit {
                ensure_among_children(&mut node.children, child, child_is_dir, node.depth, label);
            } else {
                proof {
                    assert(decreases_to!(a => a[i as int]));
                    assert(decreases_to!(a[i as int] => a[i as int].children));
                    assert(decreases_to!(a[i as int].children => a[i as int].children@));
                }
                let found = ensure_in_nodes(&mut node.children, parent, child, child_is_dir, label);
            }
            nodes.set_and_swap(i, &mut node);
            proof {
                let b = nodes@;
                assert(found_in(a, parent@));
                assert forall|j: int| 0 <= j < a.len() implies {
                    &&& (#[trigger] b[j]).path == a[j].path
                    &&& b[j].name == a[j].name
                    &&& b[j].depth == a[j].depth
                    &&& b[j].expanded == a[j].expanded
                    &&& if exists|k: int|
                        0 <= k < j && (path_eq((#[trigger] a[k]).path@, parent@) || found_in(a[k].children@, parent@)) {
                        b[j] == a[j]
                    } else if path_eq(a[j].path@, parent@) {
                        if has_child(a[j].children@, child@) || !child_is_dir {
                            b[j].children@ == a[j].children@
                        } else {
                            let pos = insert_position(a[j].children@, str_lowercase(node_name(child@, label@)), 0);
                            &&& b[j].children@.len() == a[j].children@.len() + 1
                            &&& b[j].children@.subrange(0, pos) == a[j].children@.subrange(0, pos)
                            &&& new_child_node(b[j].children@[pos], child@, a[j].depth + 1, label@)
                            &&& b[j].children@.subrange(pos + 1, b[j].children@.len() as int)
                                == a[j].children@.subrange(pos, a[j].children@.len() as int)
                        }
                    } else if found_in(a[j].children@, parent@) {
                        ensured(a[j].children@, b[j].children@, parent@, child@, child_is_dir, label@)
                    } else {
                        b[j] == a[j]
                    }
                } by {
                    if j > i {
                        assert(path_eq(a[i as int].path@, parent@) || found_in(a[i as int].children@, parent@));
                    }
                }
            }
            return true;
        }
        i = i + 1;
    }
    proof {
        if found_in(a, parent@) {
            let w = choose|w: int|
                0 <= w < a.len() && (path_eq((#[trigger] a[w]).path@, parent@) || found_in(a[w].children@, parent@));
            assert(!(path_eq(a[w].path@, parent@) || found_in(a[w].children@, parent@)));
        }
    }
    false
}

impl NavTreeState {
    /// Opens the folder at `path`, unless it is open, with the children read
    /// at `children` (a step of showing a folder in the tree).
    pub fn open_folder(&mut self, path: &str, children: &Vec<String>, filesystem_label: &str)
        requires
            !path_among(old(self).expanded_paths@, path@) ==> depths_ok(old(self).roots@),
        ensures
            final(self).current_path == old(self).current_path,
            forall|d: int| #[trigger] depths_within(old(self).roots@, d) ==> depths_within(final(self).roots@, d + 1),
            path_among(old(self).expanded_paths@, path@) ==> final(self).expanded_paths@ == old(
                self,
            ).expanded_paths@ && final(self).roots@ == old(self).roots@,
            !path_among(old(self).expanded_paths@, path@) ==> {
                &&& strs_view(final(self).expanded_paths@) == strs_view(old(self).expanded_paths@).push(path@)
                &&& found_in(old(self).roots@, path@) ==> loaded(
                    old(self).roots@,
                    final(self).roots@,
                    path@,
                    children@,
                    filesystem_label@,
                )
                &&& !found_in(old(self).roots@, path@) ==> final(self).roots@ == old(self).roots@
            },
    {
        if !self.is_expanded(path) {
            self.toggle_expand(path, children, filesystem_label);
        } else {
            proof {
                assert forall|d: int| #[trigger] depths_within(self.roots@, d) implies depths_within(self.roots@, d + 1) by {
                    lemma_within_mono(self.roots@, d, d + 1);
                }
            }
        }
    }

    /// Makes sure that the folder at `parent` in the tree lists the folder at
    /// `child` (see [`ensured`]), as when a hidden folder is walked through.
    pub fn ensure_child_exists(&mut self, parent: &str, child: &str, child_is_dir: bool, filesystem_label: &str)
        requires
            depths_ok(old(self).roots@),
        ensures
            final(self).current_path == old(self).current_path,
            final(self).expanded_paths == old(self).expanded_paths,
            found_in(old(self).roots@, parent@) ==> ensured(
                old(self).roots@,
                final(self).roots@,
                parent@,
                child@,
                child_is_dir,
                filesystem_label@,
            ),
            !found_in(old(self).roots@, parent@) ==> final(self).roots@ == old(self).roots@,
            forall|d: int| #[trigger] depths_within(old(self).roots@, d) ==> depths_within(final(self).roots@, d + 1),
    {
        let ghost a = self.roots@;
        let found = ensure_in_nodes(&mut self.roots, parent, child, child_is_dir, filesystem_label);
        proof {
            assert forall|d: int| #[trigger] depths_within(a, d) implies depths_within(self.roots@, d + 1) by {
                if found {
                    lemma_ensured_within(a, self.roots@, parent@, child@, child_is_dir, filesystem_label@, d);
                } else {
                    lemma_within_mono(a, d, d + 1);
                }
            }
        }
    }

    /// Records the folder the tab shows.
    pub fn set_current(&mut self, target: String)
        ensures
            final(self).current_path == Some(target),
            final(self).roots == old(self).roots,
            final(self).expanded_paths == old(self).expanded_paths,
    {
        self.current_path = Some(target);
    }
}

/// The number of lines a node's name takes in the tree pane: the name's
/// width (8 pixels per byte) over the width left beside its indent and icons
/// (210 pixels less 16 per level, at least 50), rounded up, at least one.
pub open spec fn spec_node_lines(n: TreeNode) -> nat {
    let width: int = 8 * (vstd::utf8::encode_utf8(n.name@).len() as usize);
    let avail: int = if n.depth >= 10 {
        50
    } else {
        210 - 16 * n.depth
    };
    let l: int = (width + avail - 1) / avail;
    if l >= 1 {
        l as nat
    } else {
        1
    }
}

/// Walks the forest `a` depth first from its node `i` on, going into the
/// open folders (those among `expanded`), until the node at `target`: whether
/// it was reached, and the lines taken by the nodes passed on the way.
pub open spec fn lines_before(a: Seq<TreeNode>, i: int, target: Seq<char>, expanded: Seq<String>) -> (bool, nat)
    decreases a, a.len() - i,
{
    if i < 0 || i >= a.len() {
        (false, 0)
    } else if path_eq(a[i].path@, target) {
        (true, 0)
    } else {
        let own = spec_node_lines(a[i]);
        let inner = if path_among(expanded, a[i].path@) {
            lines_before(a[i].children@, 0, target, expanded)
        } else {
            (false, 0nat)
        };
        if inner.0 {
            (true, own + inner.1)
        } else {
            let rest = lines_before(a, i + 1, target, expanded);
            (rest.0, own + inner.1 + rest.1)
        }
    }
}

/// `x`, or `u64::MAX` where it does not fit.
pub open spec fn capped(x: int) -> u64 {
    if x <= u64::MAX {
        x as u64
    } else {
        u64::MAX
    }
}

fn add_capped(a: u64, b: u64) -> (r: u64)
    ensures
        r == capped(a + b),
{
    if a > u64::MAX - b {
        u64::MAX
    } else {
        a + b
    }
}

/// The lines a node's name takes.
fn node_lines(n: &TreeNode) -> (r: u64)
    ensures
        r == spec_node_lines(*n),
{
    let len: usize = n.name.as_str().len();
    let avail: u128 = if n.depth >= 10 {
        50
    } else {
        (210 - 16 * n.depth) as u128
    };
    let width: u128 = 8 * (len as u128);
    let l: u128 = (width + avail - 1) / avail;
    proof {
        let w = width as int;
        let v = avail as int;
        assert((w + v - 1) / v <= w / 50 + 1) by (nonlinear_arith)
            requires
                v >= 50,
                w >= 0,
        ;
    }
    if l >= 1 {
        l as u64
    } else {
        1
    }
}

/// Whether one of `paths` is the same path as `p`.
fn among(paths: &Vec<String>, p: &str) -> (r: bool)
    ensures
        r == path_among(paths@, p@),
{
    let mut k: usize = 0;
    while k < paths.len()
        invariant
            k <= paths@.len(),
            forall|j: int| 0 <= j < k ==> !path_eq((#[trigger] paths@[j])@, p@),
        decreases paths@.len() - k,
    {
        if same_path(paths[k].as_str(), p) {
            assert(path_eq(paths@[k as int]@, p@));
            return true;
        }
        k = k + 1;
    }
    false
}

/// Whether the walk reaches `target`, and the lines passed (capped).
fn lines_before_in(nodes: &Vec<TreeNode>, target: &str, expanded: &Vec<String>) -> (r: (bool, u64))
    ensures
        r.0 == lines_before(nodes@, 0, target@, expanded@).0,
        r.1 == capped(lines_before(nodes@, 0, target@, expanded@).1 as int),
    decreases nodes@,
{
    let ghost a = nodes@;
    let mut acc: u64 = 0;
    let mut i: usize = 0;
    assert(lines_before(a, 0, target@, expanded@).1 == 0nat + lines_before(a, 0, target@, expanded@).1
        && acc == capped(0nat as int));
    while i < nodes.len()
        invariant
            a == nodes@,
            i <= a.len(),
            lines_before(a, 0, target@, expanded@).0 == lines_before(a, i as int, target@, expanded@).0,
            exists|sum: nat|
                lines_before(a, 0, target@, expanded@).1 == sum + lines_before(a, i as int, target@, expanded@).1
                    && acc == capped(sum as int),
        decreases a.len() - i,
    {
        let ghost sum: nat = choose|sum: nat|
            lines_before(a, 0, target@, expanded@).1 == sum + lines_before(a, i as int, target@, expanded@).1
                && acc == capped(sum as int);
        if same_path(nodes[i].path.as_str(), target) {
            assert(lines_before(a, i as int, target@, expanded@) == (true, 0nat));
            return (true, acc);
        }
        let own = node_lines(&nodes[i]);
        let inner = if among(expanded, nodes[i].path.as_str()) {
            proof {
                assert(decreases_to!(nodes@ => nodes@[i as int]));
                assert(decreases_to!(nodes@[i as int] => nodes@[i as int].children));
                assert(decreases_to!(nodes@[i as int].children => nodes@[i as int].children@));
            }
            lines_before_in(&nodes[i].children, target, expanded)
        } else {
            (false, 0)
        };
        let ghost inner_spec = if path_among(expanded@, a[i as int].path@) {
            lines_before(a[i as int].children@, 0, target@, expanded@)
        } else {
            (false, 0nat)
        };
        assert(inner.0 == inner_spec.0 && inner.1 == capped(inner_spec.1 as int));
        let step = add_capped(own, inner.1);
        assert(step == capped(own + inner_spec.1));
        acc = add_capped(acc, step);
        assert(acc == capped(sum + own + inner_spec.1));
        if inner.0 {
            assert(lines_before(a, i as int, target@, expanded@) == (true, (own + inner_spec.1) as nat));
            return (true, acc);
        }
        assert(lines_before(a, i as int, target@, expanded@).1 == own + inner_spec.1 + lines_before(
            a,
            i + 1,
            target@,
            expanded@,
        ).1);
        assert(lines_before(a, 0, target@, expanded@).1 == (sum + own + inner_spec.1) + lines_before(
            a,
            i + 1,
            target@,
            expanded@,
        ).1);
        i = i + 1;
    }
    assert(lines_before(a, i as int, target@, expanded@) == (false, 0nat));
    (false, acc)
}

/// How far down the tree pane the current folder is, in pixels: the toggle
/// row (40) and 32 per line of the names passed before it; 0 without a
/// current folder (capped at `u64::MAX`).
pub open spec fn spec_scroll_offset(state: NavTreeState) -> u64 {
    match state.current_path {
        None => 0,
        Some(t) => capped(40 + 32 * (lines_before(state.roots@, 0, t@, state.expanded_paths@).1 as int)),
    }
}

impl NavTreeState {
    /// How far down the tree pane the current folder is, in pixels.
    pub fn scroll_offset_for_current(&self) -> (r: u64)
        ensures
            r == spec_scroll_offset(*self),
    {
        let target = match &self.current_path {
            None => return 0,
            Some(t) => t,
        };
        let (_, lines) = lines_before_in(&self.roots, target.as_str(), &self.expanded_paths);
        if lines > (u64::MAX - 40) / 32 {
            u64::MAX
        } else {
            40 + 32 * lines
        }
    }
}

} // verus!
