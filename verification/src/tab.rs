//! Locations shown in a tab, their titles and ancestors, and the tab's
//! navigation history and selection.

use vstd::prelude::*;
use crate::paths::{file_name, parent, join, same_path, opt_view, path_file_name, path_parent, path_eq, path_join,
    lemma_join_empty_same_path};
use crate::text::{str_equal, copy_str, starts_with, substring, has_prefix};

verus! {

/// A point in time (`std::time::Instant`); only carried, never inspected.
#[verifier::external_type_specification]
#[verifier::external_body]
pub struct ExInstant(std::time::Instant);

/// Copying an instant (`Instant` is `Copy`, so its clone is the instant itself).
pub assume_specification[ <std::time::Instant as Clone>::clone ](i: &std::time::Instant) -> (r: std::time::Instant)
    ensures
        r == *i,
;

/// Whether two instants are the same (`Instant`'s `==`, which compares the
/// instants' values).
#[verifier::external_body]
fn instant_eq(a: &std::time::Instant, b: &std::time::Instant) -> (r: bool)
    ensures
        r == (*a == *b),
{
    *a == *b
}

/// The path of a recently used file's URI: what follows `file://`; none
/// for another scheme.
pub fn uri_to_path(uri: String) -> (r: Option<String>)
    ensures
        has_prefix(uri@, "file://"@) ==> (r matches Some(p) && p@ == uri@.subrange(7, uri@.len() as int)),
        !has_prefix(uri@, "file://"@) ==> r is None,
{
    proof {
        reveal_strlit("file://");
    }
    if starts_with(uri.as_str(), "file://") {
        Some(substring(uri.as_str(), 7, uri.unicode_len()))
    } else {
        None
    }
}

/// How the desktop shows its contents.
#[derive(Clone, Copy, Debug, PartialEq, Eq, Hash, Structural)]
pub struct DesktopConfig {
    pub grid_spacing: u16,
    pub icon_size: u16,
    pub show_content: bool,
    pub show_mounted_drives: bool,
    pub show_trash: bool,
}

/// What a tab shows.
#[derive(Clone, Debug, PartialEq, Eq, Hash)]
pub enum Location {
    /// A folder shown as a desktop, on the named display.
    Desktop(String, String, DesktopConfig),
    /// A network location: its URI, its display name and its local path.
    Network(String, String, Option<String>),
    Path(String),
    Recents,
    /// A search below a path, for a term, with hidden files or not, started
    /// at an instant.
    Search(String, String, bool, std::time::Instant),
    Trash,
}

/// The path that a location shows, if it shows one.
pub open spec fn spec_path_opt(l: Location) -> Option<Seq<char>> {
    match l {
        Location::Desktop(p, ..) => Some(p@),
        Location::Path(p) => Some(p@),
        Location::Search(p, ..) => Some(p@),
        Location::Network(_, _, p) => opt_view(p),
        _ => None,
    }
}

/// Whether two locations are equal: the same kind, the same paths (as
/// `Path`'s `==` compares them) and the same other fields.
pub open spec fn loc_eq(a: Location, b: Location) -> bool {
    match (a, b) {
        (Location::Desktop(p, d, c), Location::Desktop(q, e, f)) => path_eq(p@, q@) && d@ == e@ && c == f,
        (Location::Network(u, n, p), Location::Network(v, m, q)) => u@ == v@ && n@ == m@ && match (p, q) {
            (Some(x), Some(y)) => path_eq(x@, y@),
            (None, None) => true,
            _ => false,
        },
        (Location::Path(p), Location::Path(q)) => path_eq(p@, q@),
        (Location::Recents, Location::Recents) => true,
        (Location::Search(p, t, h, i), Location::Search(q, u, g, j)) => path_eq(p@, q@) && t@ == u@ && h == g
            && i == j,
        (Location::Trash, Location::Trash) => true,
        _ => false,
    }
}

/// Whether two locations are equal, as [`loc_eq`] defines it.
pub fn location_eq(a: &Location, b: &Location) -> (r: bool)
    ensures
        r == loc_eq(*a, *b),
{
    match (a, b) {
        (Location::Desktop(p, d, c), Location::Desktop(q, e, f)) => same_path(p.as_str(), q.as_str())
            && str_equal(d.as_str(), e.as_str()) && *c == *f,
        (Location::Network(u, n, p), Location::Network(v, m, q)) => {
            if !str_equal(u.as_str(), v.as_str()) || !str_equal(n.as_str(), m.as_str()) {
                return false;
            }
            match (p, q) {
                (Some(x), Some(y)) => same_path(x.as_str(), y.as_str()),
                (None, None) => true,
                _ => false,
            }
        },
        (Location::Path(p), Location::Path(q)) => same_path(p.as_str(), q.as_str()),
        (Location::Recents, Location::Recents) => true,
        (Location::Search(p, t, h, i), Location::Search(q, u, g, j)) => same_path(p.as_str(), q.as_str())
            && str_equal(t.as_str(), u.as_str()) && *h == *g && instant_eq(i, j),
        (Location::Trash, Location::Trash) => true,
        _ => false,
    }
}

/// A copy of an optional string.
pub fn copy_opt(o: &Option<String>) -> (r: Option<String>)
    ensures
        r == *o,
{
    match o {
        Some(s) => Some(s.clone()),
        None => None,
    }
}

/// Whether `r` is the location `l` moved to `path`: the same kind and the
/// same other fields. A network location keeps its own path, and locations
/// without a path stay as they are.
pub open spec fn with_path_rel(l: Location, path: Seq<char>, r: Location) -> bool {
    match l {
        Location::Desktop(_, d, c) => r matches Location::Desktop(p, e, f) && p@ == path && e == d && f == c,
        Location::Path(_) => r matches Location::Path(p) && p@ == path,
        Location::Search(_, t, h, i) => r matches Location::Search(p, u, g, j) && p@ == path && u == t && g == h
            && j == i,
        Location::Network(..) => r == l,
        Location::Recents => r == l,
        Location::Trash => r == l,
    }
}

/// Whether `r` is `l` normalised: moved to its own path joined with an empty
/// path (which ends it with a separator); a location without a path stays
/// as it is.
pub open spec fn normalized(l: Location, r: Location) -> bool {
    match spec_path_opt(l) {
        Some(p) => with_path_rel(l, path_join(p, seq![]), r),
        None => r == l,
    }
}

/// A normalised location is the same place as the location it came from:
/// the same kind, the same path as `Path`'s `==` compares it, the same other
/// fields.
pub proof fn lemma_normalized_same_place(l: Location, r: Location)
    requires
        normalized(l, r),
    ensures
        loc_eq(r, l),
{
    if let Some(p) = spec_path_opt(l) {
        lemma_join_empty_same_path(p);
    }
}

/// Normalising twice gives what normalising once gives (the same kind of
/// location, with the same path and the same other fields): the path ends in
/// a separator after the first time (unless it is empty), and joining such a
/// path with an empty one changes nothing.
pub proof fn lemma_normalize_idempotent(l: Location, r1: Location, r2: Location)
    requires
        normalized(l, r1),
        normalized(r1, r2),
    ensures
        spec_path_opt(r2) == spec_path_opt(r1),
        loc_eq(r2, r1),
{
    if let Some(p) = spec_path_opt(l) {
        let q = path_join(p, seq![]);
        assert(path_join(q, seq![]) =~= q);
    }
}

/// How a folder is named in a location's title or ancestors.
#[derive(Clone, Debug, PartialEq, Eq)]
pub enum FolderLabel {
    /// The home folder.
    Home,
    /// The root of the file system.
    Filesystem,
    /// Any other folder, shown by its display name (that of its item: a
    /// desktop entry's name, for instance), which the caller reads; this is
    /// its last path component, shown where the display name cannot be read.
    Named(String),
}

/// The mathematical value of a [`FolderLabel`].
pub enum FolderLabelView {
    Home,
    Filesystem,
    Named(Seq<char>),
}

impl View for FolderLabel {
    type V = FolderLabelView;

    open spec fn view(&self) -> FolderLabelView {
        match self {
            FolderLabel::Home => FolderLabelView::Home,
            FolderLabel::Filesystem => FolderLabelView::Filesystem,
            FolderLabel::Named(s) => FolderLabelView::Named(s@),
        }
    }
}

impl FolderLabel {
    /// The text shown for the label: the translated name of the home folder
    /// or of the file system, or the folder's display name as read for its
    /// path (`display_name`, none where its item could not be read), else
    /// its last path component.
    pub fn text(&self, display_name: Option<String>, home_text: &str, filesystem_text: &str) -> (r: String)
        ensures
            r@ == match *self {
                FolderLabel::Home => home_text@,
                FolderLabel::Filesystem => filesystem_text@,
                FolderLabel::Named(n) => match display_name {
                    Some(d) => d@,
                    None => n@,
                },
            },
    {
        match self {
            FolderLabel::Home => copy_str(home_text),
            FolderLabel::Filesystem => copy_str(filesystem_text),
            FolderLabel::Named(n) => match display_name {
                Some(d) => d,
                None => copy_str(n.as_str()),
            },
        }
    }
}

/// How a folder is named, given the home folder: a path without a last
/// component is the file system; the home folder is home; any other folder
/// is named by its last component.
pub open spec fn spec_folder_label(path: Seq<char>, home: Seq<char>) -> FolderLabelView {
    match path_file_name(path) {
        None => FolderLabelView::Filesystem,
        Some(n) => if path_eq(path, home) {
            FolderLabelView::Home
        } else {
            FolderLabelView::Named(n)
        },
    }
}

/// How a folder is named, and whether it is the home folder.
pub fn folder_name(path: &str, home: &str) -> (r: (FolderLabel, bool))
    ensures
        r.0@ == spec_folder_label(path@, home@),
        r.1 == (r.0 is Home),
{
    match file_name(path) {
        None => (FolderLabel::Filesystem, false),
        Some(n) => if same_path(path, home) {
            (FolderLabel::Home, true)
        } else {
            (FolderLabel::Named(n), false)
        },
    }
}

/// The title of a location.
#[derive(Clone, Debug)]
pub enum LocationTitle {
    /// A folder, named as in [`FolderLabel`].
    Folder(FolderLabel),
    /// A search for `term` in a folder.
    Search { term: String, folder: FolderLabel },
    Trash,
    Recents,
    /// A network location, by its display name.
    Network(String),
}

impl Location {
    /// The path that the location shows, if it shows one.
    pub fn path_opt(&self) -> (r: Option<&String>)
        ensures
            match r {
                Some(p) => spec_path_opt(*self) == Some(p@),
                None => spec_path_opt(*self) is None,
            },
    {
        match self {
            Location::Desktop(path, ..) => Some(path),
            Location::Path(path) => Some(path),
            Location::Search(path, ..) => Some(path),
            Location::Network(_, _, path) => path.as_ref(),
            _ => None,
        }
    }

    /// The same kind of location at `path`. A network location keeps its own
    /// path, and locations without a path are unchanged.
    pub fn with_path(&self, path: String) -> (r: Location)
        ensures
            with_path_rel(*self, path@, r),
            spec_path_opt(r) == match *self {
                Location::Network(..) | Location::Recents | Location::Trash => spec_path_opt(*self),
                _ => Some(path@),
            },
    {
        match self {
            Location::Desktop(_, display, desktop_config) => Location::Desktop(path, display.clone(), *desktop_config),
            Location::Path(..) => Location::Path(path),
            Location::Search(_, term, show_hidden, time) => Location::Search(path, term.clone(), *show_hidden, *time),
            Location::Network(id, name, p) => Location::Network(id.clone(), name.clone(), copy_opt(p)),
            Location::Recents => Location::Recents,
            Location::Trash => Location::Trash,
        }
    }

    /// A copy of the location.
    pub fn duplicate(&self) -> (r: Location)
        ensures
            r == *self,
    {
        match self {
            Location::Desktop(p, d, c) => Location::Desktop(p.clone(), d.clone(), *c),
            Location::Path(p) => Location::Path(p.clone()),
            Location::Search(p, t, h, i) => Location::Search(p.clone(), t.clone(), *h, *i),
            Location::Network(id, name, p) => Location::Network(id.clone(), name.clone(), copy_opt(p)),
            Location::Recents => Location::Recents,
            Location::Trash => Location::Trash,
        }
    }

    /// The location with its path ending in a separator (`Path::join` with
    /// an empty path), so that equal folders compare equal as text.
    pub fn normalize(&self) -> (r: Location)
        ensures
            normalized(*self, r),
    {
        match self.path_opt() {
            Some(p) => {
                let joined = join(p.as_str(), "");
                proof {
                    reveal_strlit("");
                    assert(""@ =~= seq![]);
                }
                self.with_path(joined)
            },
            None => self.with_path(String::new()),
        }
    }

    /// The title of the location, given the home folder.
    pub fn title(&self, home: &str) -> (r: LocationTitle)
        ensures
            match *self {
                Location::Desktop(p, ..) | Location::Path(p) => r matches LocationTitle::Folder(l) && l@
                    == spec_folder_label(p@, home@),
                Location::Search(p, t, ..) => r matches LocationTitle::Search { term, folder } && term@ == t@
                    && folder@ == spec_folder_label(p@, home@),
                Location::Trash => r is Trash,
                Location::Recents => r is Recents,
                Location::Network(d, ..) => r matches LocationTitle::Network(n) && n@ == d@,
            },
    {
        match self {
            Location::Desktop(path, _, _) => LocationTitle::Folder(folder_name(path.as_str(), home).0),
            Location::Path(path) => LocationTitle::Folder(folder_name(path.as_str(), home).0),
            Location::Search(path, term, ..) => LocationTitle::Search {
                term: term.clone(),
                folder: folder_name(path.as_str(), home).0,
            },
            Location::Trash => LocationTitle::Trash,
            Location::Recents => LocationTitle::Recents,
            Location::Network(display_name, ..) => LocationTitle::Network(display_name.clone()),
        }
    }
}

/// The folders from `path` up through its parents, stopping after the home
/// folder or at the root.
pub open spec fn spec_ancestor_paths(path: Seq<char>, home: Seq<char>) -> Seq<Seq<char>>
    decreases path.len(),
{
    if spec_folder_label(path, home) is Home {
        seq![path]
    } else {
        match path_parent(path) {
            None => seq![path],
            Some(q) => if q.len() < path.len() {
                seq![path] + spec_ancestor_paths(q, home)
            } else {
                seq![path]
            },
        }
    }
}

/// The paths of a list of labelled paths.
pub open spec fn labelled_paths(v: Seq<(String, FolderLabel)>) -> Seq<Seq<char>> {
    v.map_values(|e: (String, FolderLabel)| e.0@)
}

/// Appends the folders from `cur` up to the home folder or the root, each
/// with its label.
fn push_ancestors(cur: String, home: &str, out: &mut Vec<(String, FolderLabel)>)
    requires
        forall|i: int| 0 <= i < old(out)@.len() ==> (#[trigger] old(out)@[i]).1@ == spec_folder_label(old(out)@[i].0@, home@),
    ensures
        labelled_paths(final(out)@) == labelled_paths(old(out)@) + spec_ancestor_paths(cur@, home@),
        forall|i: int| 0 <= i < final(out)@.len() ==> (#[trigger] final(out)@[i]).1@ == spec_folder_label(final(out)@[i].0@, home@),
    decreases cur@.len(),
{
    let (label, found_home) = folder_name(cur.as_str(), home);
    let par = parent(cur.as_str());
    let ghost c = cur@;
    let ghost before = out@;
    out.push((cur, label));
    assert(labelled_paths(out@) =~= labelled_paths(before).push(c));
    if found_home {
        assert(spec_ancestor_paths(c, home@) == seq![c]);
        assert(labelled_paths(before).push(c) =~= labelled_paths(before) + seq![c]);
        return;
    }
    match par {
        Some(q) => {
            let ghost qv = q@;
            push_ancestors(q, home, out);
            assert(spec_ancestor_paths(c, home@) == seq![c] + spec_ancestor_paths(qv, home@));
            assert(labelled_paths(before).push(c) + spec_ancestor_paths(qv, home@) =~= labelled_paths(before) + (
            seq![c] + spec_ancestor_paths(qv, home@)));
        },
        None => {
            assert(spec_ancestor_paths(c, home@) == seq![c]);
            assert(labelled_paths(before).push(c) =~= labelled_paths(before) + seq![c]);
        },
    }
}

impl Location {
    /// The location's ancestors, from itself up to the home folder or the
    /// root, each with the label of its folder.
    pub fn ancestors(&self, home: &str) -> (r: Vec<(Location, FolderLabel)>)
        ensures
            match spec_path_opt(*self) {
                None => r@.len() == 0,
                Some(p) => {
                    let anc = spec_ancestor_paths(p, home@);
                    &&& r@.len() == anc.len()
                    &&& forall|i: int|
                        0 <= i < anc.len() ==> {
                            &&& (#[trigger] r@[i]).1@ == spec_folder_label(anc[i], home@)
                            &&& with_path_rel(*self, anc[i], r@[i].0)
                            &&& match *self {
                                Location::Network(..) => spec_path_opt(r@[i].0) == spec_path_opt(*self),
                                _ => spec_path_opt(r@[i].0) == Some(anc[i]),
                            }
                        }
                },
            },
    {
        let mut out: Vec<(Location, FolderLabel)> = Vec::new();
        let start = match self.path_opt() {
            Some(p) => p.clone(),
            None => return out,
        };
        let mut paths: Vec<(String, FolderLabel)> = Vec::new();
        push_ancestors(start, home, &mut paths);
        let ghost anc = labelled_paths(paths@);
        assert(anc =~= spec_ancestor_paths(spec_path_opt(*self).unwrap(), home@));
        let mut rest = paths;
        let mut rev: Vec<(Location, FolderLabel)> = Vec::new();
        // Take the entries from the back, then restore their order.
        while rest.len() > 0
            invariant
                !(*self is Recents) && !(*self is Trash),
                rest@.len() <= anc.len(),
                labelled_paths(rest@) == anc.subrange(0, rest@.len() as int),
                forall|i: int| 0 <= i < rest@.len() ==> (#[trigger] rest@[i]).1@ == spec_folder_label(rest@[i].0@, home@),
                rev@.len() == anc.len() - rest@.len(),
                forall|i: int|
                    0 <= i < rev@.len() ==> {
                        let k = anc.len() - 1 - i;
                        &&& (#[trigger] rev@[i]).1@ == spec_folder_label(anc[k], home@)
                        &&& with_path_rel(*self, anc[k], rev@[i].0)
                        &&& match *self {
                            Location::Network(..) => spec_path_opt(rev@[i].0) == spec_path_opt(*self),
                            _ => spec_path_opt(rev@[i].0) == Some(anc[k]),
                        }
                    },
            decreases rest@.len(),
        {
            let ghost n = rest@.len();
            let ghost lp = labelled_paths(rest@);
            let ghost last = rest@[n - 1];
            let (path, label) = rest.pop().unwrap();
            assert(path == last.0 && label == last.1);
            assert(lp[n - 1] == path@);
            assert(label@ == spec_folder_label(anc[n - 1], home@));
            assert(labelled_paths(rest@) =~= lp.subrange(0, n - 1));
            let ghost pv = path@;
            let loc = self.with_path(path);
            assert(with_path_rel(*self, pv, loc));
            assert(match *self {
                Location::Network(..) => spec_path_opt(loc) == spec_path_opt(*self),
                _ => spec_path_opt(loc) == Some(pv),
            });
            rev.push((loc, label));
        }
        while rev.len() > 0
            invariant
                rev@.len() + out@.len() == anc.len(),
                forall|i: int|
                    0 <= i < rev@.len() ==> {
                        let k = anc.len() - 1 - i;
                        &&& (#[trigger] rev@[i]).1@ == spec_folder_label(anc[k], home@)
                        &&& with_path_rel(*self, anc[k], rev@[i].0)
                        &&& match *self {
                            Location::Network(..) => spec_path_opt(rev@[i].0) == spec_path_opt(*self),
                            _ => spec_path_opt(rev@[i].0) == Some(anc[k]),
                        }
                    },
                forall|i: int|
                    0 <= i < out@.len() ==> {
                        &&& (#[trigger] out@[i]).1@ == spec_folder_label(anc[i], home@)
                        &&& with_path_rel(*self, anc[i], out@[i].0)
                        &&& match *self {
                            Location::Network(..) => spec_path_opt(out@[i].0) == spec_path_opt(*self),
                            _ => spec_path_opt(out@[i].0) == Some(anc[i]),
                        }
                    },
            decreases rev@.len(),
        {
            let e = rev.pop().unwrap();
            out.push(e);
        }
        out
    }
}

/// The location being typed into the location bar, with the completions
/// offered for it and the one picked, if any.
#[derive(Clone, Debug)]
pub struct EditLocation {
    pub location: Location,
    /// Completions as (shown name, path).
    pub completions: Option<Vec<(String, String)>>,
    pub selected: Option<usize>,
}

/// The number of completions, if there are completions.
pub open spec fn completions_len(c: Option<Vec<(String, String)>>) -> Option<nat> {
    match c {
        Some(v) => Some(v@.len()),
        None => None,
    }
}

/// The completion picked after one step forwards or backwards among `len`
/// completions (if there are completions): forwards from nothing or past
/// the end goes to the first; backwards from nothing or from the first
/// goes to the last. Without completions nothing is picked.
pub open spec fn next_selected(len: Option<nat>, selected: Option<usize>, forwards: bool) -> Option<usize> {
    match len {
        None => None,
        Some(n) => if n == 0 {
            None
        } else {
            let s: int = if forwards {
                match selected {
                    Some(x) => if x < usize::MAX {
                        x + 1
                    } else {
                        0
                    },
                    None => 0,
                }
            } else {
                match selected {
                    Some(x) => if x > 0 {
                        x - 1
                    } else {
                        n - 1
                    },
                    None => n - 1,
                }
            };
            Some(
                (if s >= n {
                    0
                } else {
                    s
                }) as usize,
            )
        },
    }
}

impl EditLocation {
    /// An edit of `location` with no completions yet.
    pub fn from_location(location: Location) -> (r: EditLocation)
        ensures
            r.location == location,
            r.completions is None,
            r.selected is None,
    {
        EditLocation { location, completions: None, selected: None }
    }

    /// The location to go to: the edited location itself when no completion
    /// is picked, else the location moved to the picked completion's path;
    /// nothing when the pick is not among the completions.
    pub fn resolve(&self) -> (r: Option<Location>)
        ensures
            match self.selected {
                None => r == Some(self.location),
                Some(i) => match self.completions {
                    None => r is None,
                    Some(c) => if i < c@.len() {
                        r matches Some(l) && with_path_rel(self.location, c@[i as int].1@, l)
                    } else {
                        r is None
                    },
                },
            },
    {
        let selected = match self.selected {
            None => return Some(self.location.duplicate()),
            Some(s) => s,
        };
        let completions = match &self.completions {
            None => return None,
            Some(c) => c,
        };
        if selected >= completions.len() {
            return None;
        }
        Some(self.location.with_path(completions[selected].1.clone()))
    }

    /// Steps the picked completion forwards or backwards, wrapping around.
    pub fn select(&mut self, forwards: bool)
        ensures
            final(self).location == old(self).location,
            final(self).completions == old(self).completions,
            final(self).selected == next_selected(completions_len(old(self).completions), old(self).selected, forwards),
    {
        let len = match &self.completions {
            None => {
                self.selected = None;
                return;
            },
            Some(c) => c.len(),
        };
        if len == 0 {
            self.selected = None;
            return;
        }
        let mut selected = if forwards {
            match self.selected {
                Some(x) => if x < usize::MAX {
                    x + 1
                } else {
                    0
                },
                None => 0,
            }
        } else {
            match self.selected {
                Some(x) => if x > 0 {
                    x - 1
                } else {
                    len - 1
                },
                None => len - 1,
            }
        };
        if selected >= len {
            selected = 0;
        }
        self.selected = Some(selected);
    }
}

/// Stepping the picked completion forwards and then backwards, or backwards
/// and then forwards, picks the same completion again; and a step always
/// picks one of the completions.
pub proof fn lemma_select_round_trip(len: nat, i: usize)
    requires
        i < len,
        len <= usize::MAX,
    ensures
        next_selected(Some(len), next_selected(Some(len), Some(i), true), false) == Some(i),
        next_selected(Some(len), next_selected(Some(len), Some(i), false), true) == Some(i),
        next_selected(Some(len), Some(i), true) matches Some(j) && j < len,
        next_selected(Some(len), Some(i), false) matches Some(j) && j < len,
{
}

/// The columns by which a folder's items can be sorted.
#[derive(Clone, Copy, Debug, Hash, PartialEq, Eq, PartialOrd, Ord, Structural)]
pub enum HeadingOptions {
    Name,
    Modified,
    Size,
    TrashedOn,
}

impl HeadingOptions {
    /// The message key under which a column's heading is translated.
    pub fn message_key(self) -> (r: &'static str)
        ensures
            r@ == match self {
                HeadingOptions::Name => "name"@,
                HeadingOptions::Modified => "modified"@,
                HeadingOptions::Size => "size"@,
                HeadingOptions::TrashedOn => "trashed-on"@,
            },
    {
        match self {
            HeadingOptions::Name => "name",
            HeadingOptions::Modified => "modified",
            HeadingOptions::Size => "size",
            HeadingOptions::TrashedOn => "trashed-on",
        }
    }

    /// The message keys of the column headings, in column order: name,
    /// modified, size, trashed on.
    pub fn names() -> (r: Vec<String>)
        ensures
            r@.len() == 4,
            r@[0]@ == "name"@,
            r@[1]@ == "modified"@,
            r@[2]@ == "size"@,
            r@[3]@ == "trashed-on"@,
    {
        let mut v: Vec<String> = Vec::new();
        v.push(copy_str(HeadingOptions::Name.message_key()));
        v.push(copy_str(HeadingOptions::Modified.message_key()));
        v.push(copy_str(HeadingOptions::Size.message_key()));
        v.push(copy_str(HeadingOptions::TrashedOn.message_key()));
        v
    }
}

/// How a folder's items are laid out.
#[derive(Clone, Copy, Debug, PartialEq, Eq, Structural)]
pub enum ViewKind {
    Grid,
    List,
}

/// What a file chooser dialog asks for.
#[derive(Clone, Debug, PartialEq, Eq)]
pub enum DialogKind {
    OpenFile,
    OpenFolder,
    OpenMultipleFiles,
    OpenMultipleFolders,
    SaveFile { filename: String },
}

impl DialogKind {
    /// Whether the dialog chooses folders.
    pub fn is_dir(&self) -> (r: bool)
        ensures
            r == (*self is OpenFolder || *self is OpenMultipleFolders),
    {
        match self {
            DialogKind::OpenFolder | DialogKind::OpenMultipleFolders => true,
            _ => false,
        }
    }

    /// Whether the dialog chooses several items.
    pub fn multiple(&self) -> (r: bool)
        ensures
            r == (*self is OpenMultipleFiles || *self is OpenMultipleFolders),
    {
        match self {
            DialogKind::OpenMultipleFiles | DialogKind::OpenMultipleFolders => true,
            _ => false,
        }
    }

    /// Whether the dialog saves a file.
    pub fn save(&self) -> (r: bool)
        ensures
            r == (*self is SaveFile),
    {
        match self {
            DialogKind::SaveFile { .. } => true,
            _ => false,
        }
    }
}

/// Where a tab is shown.
#[derive(Clone, Debug, PartialEq, Eq)]
pub enum Mode {
    App,
    Desktop,
    Dialog(DialogKind),
}

/// Whether several files can be selected in a mode.
pub open spec fn spec_multiple(m: Mode) -> bool {
    match m {
        Mode::App | Mode::Desktop => true,
        Mode::Dialog(d) => d is OpenMultipleFiles || d is OpenMultipleFolders,
    }
}

impl Mode {
    /// Whether multiple files can be selected in this mode.
    pub fn multiple(&self) -> (r: bool)
        ensures
            r == spec_multiple(*self),
    {
        match self {
            Mode::App | Mode::Desktop => true,
            Mode::Dialog(dialog) => dialog.multiple(),
        }
    }
}

/// The kind of file system a file lives on.
#[derive(Clone, Copy, Debug, PartialEq, Eq, Structural)]
pub enum FsKind {
    Local,
    Remote,
    Gvfs,
}

/// The kind of file system a mount's type names: network file systems are
/// remote, the GVfs FUSE mount is GVfs, all others are local.
pub open spec fn spec_fs_kind_of_type(t: Seq<char>) -> FsKind {
    if t == "cifs"@ || t == "fuse.rclone"@ || t == "fuse.sshfs"@ || t == "nfs"@ || t == "nfs4"@ || t == "smb"@
        || t == "smb2"@ {
        FsKind::Remote
    } else if t == "fuse.gvfsd-fuse"@ {
        FsKind::Gvfs
    } else {
        FsKind::Local
    }
}

/// The kind of file system that a mount of type `fs_type` is.
pub fn fs_kind_of_type(fs_type: &str) -> (r: FsKind)
    ensures
        r == spec_fs_kind_of_type(fs_type@),
{
    if str_equal(fs_type, "cifs") || str_equal(fs_type, "fuse.rclone") || str_equal(fs_type, "fuse.sshfs")
        || str_equal(fs_type, "nfs") || str_equal(fs_type, "nfs4") || str_equal(fs_type, "smb") || str_equal(
        fs_type,
        "smb2",
    ) {
        FsKind::Remote
    } else if str_equal(fs_type, "fuse.gvfsd-fuse") {
        FsKind::Gvfs
    } else {
        FsKind::Local
    }
}

/// What the menu of an ancestor in the location bar does, with the
/// ancestor's index.
#[derive(Clone, Copy, Debug, PartialEq, Eq, Structural)]
pub enum LocationMenuAction {
    OpenInNewTab(usize),
    OpenInNewWindow(usize),
    Preview(usize),
    AddToSidebar(usize),
}

/// The unit in which a size in bytes is shown, with its number of bytes.
#[derive(Clone, Copy, Debug, PartialEq, Eq, Structural)]
pub enum SizeUnit {
    B,
    KB,
    MB,
    GB,
    TB,
}

/// The number of bytes of a unit (decimal multiples of a thousand).
pub open spec fn unit_bytes(u: SizeUnit) -> u64 {
    match u {
        SizeUnit::B => 1,
        SizeUnit::KB => 1000,
        SizeUnit::MB => 1000_000,
        SizeUnit::GB => 1000_000_000,
        SizeUnit::TB => 1000_000_000_000,
    }
}

/// The largest unit that is at most `size` bytes, or bytes.
pub open spec fn spec_size_unit(size: u64) -> SizeUnit {
    if size >= 1000_000_000_000 {
        SizeUnit::TB
    } else if size >= 1000_000_000 {
        SizeUnit::GB
    } else if size >= 1000_000 {
        SizeUnit::MB
    } else if size >= 1000 {
        SizeUnit::KB
    } else {
        SizeUnit::B
    }
}

/// The unit in which `size` bytes are shown, and that unit's bytes: the
/// size is shown as a multiple of it.
pub fn size_unit(size: u64) -> (r: (SizeUnit, u64))
    ensures
        r.0 == spec_size_unit(size),
        r.1 == unit_bytes(r.0),
        r.1 <= size || r.0 == SizeUnit::B,
{
    if size >= 1000_000_000_000 {
        (SizeUnit::TB, 1000_000_000_000)
    } else if size >= 1000_000_000 {
        (SizeUnit::GB, 1000_000_000)
    } else if size >= 1000_000 {
        (SizeUnit::MB, 1000_000)
    } else if size >= 1000 {
        (SizeUnit::KB, 1000)
    } else {
        (SizeUnit::B, 1)
    }
}

/// How a location is written out, as its sort options are keyed.
pub open spec fn spec_display(l: Location) -> Seq<char> {
    match l {
        Location::Desktop(p, d, _) => p@ + " on display "@ + d@,
        Location::Network(u, ..) => u@,
        Location::Path(p) => p@,
        Location::Recents => "recents"@,
        Location::Search(p, t, ..) => "search "@ + p@ + " for "@ + t@,
        Location::Trash => "trash"@,
    }
}

impl Location {
    /// The location written out: its path, URI or kind, and the display or
    /// search term where it has one.
    pub fn display_text(&self) -> (r: String)
        ensures
            r@ == spec_display(*self),
    {
        match self {
            Location::Desktop(p, d, _) => {
                let mut s = p.clone();
                s.append(" on display ");
                s.append(d.as_str());
                s
            },
            Location::Network(u, ..) => u.clone(),
            Location::Path(p) => p.clone(),
            Location::Recents => String::from_str("recents"),
            Location::Search(p, t, ..) => {
                let mut s = String::from_str("search ");
                s.append(p.as_str());
                s.append(" for ");
                s.append(t.as_str());
                s
            },
            Location::Trash => String::from_str("trash"),
        }
    }
}

} // verus!
