//! The state of a tab: where it is, the history it went through, the items
//! it shows and which of them are selected.

use vstd::prelude::*;
use crate::paths::{same_path, path_eq, parent, path_parent, opt_view};
use crate::column_sort::{SortEntry, column_sort, sorted_by};
use crate::tab::{Location, EditLocation, Mode, HeadingOptions, spec_path_opt, loc_eq, location_eq, normalized};

verus! {

/// An item shown in a tab, by the facts that the tab's logic reads.
#[derive(Clone, Debug)]
pub struct Item {
    pub name: String,
    pub hidden: bool,
    pub is_dir: bool,
    pub location_opt: Option<Location>,
    /// Row and column in the laid-out view, once laid out.
    pub pos_opt: Option<(usize, usize)>,
    pub selected: bool,
    pub cut: bool,
    pub overlaps_drag_rect: bool,
}

/// The path of an item's location, if it has one.
pub open spec fn item_path(it: Item) -> Option<Seq<char>> {
    match it.location_opt {
        Some(l) => spec_path_opt(l),
        None => None,
    }
}

/// The item with its selection set to `b`.
pub open spec fn with_selected(it: Item, b: bool) -> Item {
    Item { selected: b, ..it }
}

/// The item with its cut mark set to `b`.
pub open spec fn with_cut(it: Item, b: bool) -> Item {
    Item { cut: b, ..it }
}

/// `b` is `a` with, at most, other selections.
pub open spec fn only_selection_changed(a: Seq<Item>, b: Seq<Item>) -> bool {
    &&& a.len() == b.len()
    &&& forall|i: int| 0 <= i < a.len() ==> #[trigger] b[i] == with_selected(a[i], b[i].selected)
}

/// `b` is `a` with, at most, other cut marks.
pub open spec fn only_cut_changed(a: Seq<Item>, b: Seq<Item>) -> bool {
    &&& a.len() == b.len()
    &&& forall|i: int| 0 <= i < a.len() ==> #[trigger] b[i] == with_cut(a[i], b[i].cut)
}

/// The locations of the selected items that have one, in order.
pub open spec fn selected_locs(s: Seq<Item>) -> Seq<Location>
    decreases s.len(),
{
    if s.len() == 0 {
        seq![]
    } else {
        let rest = selected_locs(s.drop_last());
        let last = s.last();
        if last.selected && last.location_opt is Some {
            rest.push(last.location_opt->0)
        } else {
            rest
        }
    }
}

/// The index of the last item of which `p` holds, if any.
pub open spec fn last_index(s: Seq<Item>, p: spec_fn(Item) -> bool) -> Option<usize>
    decreases s.len(),
{
    if s.len() == 0 {
        None
    } else if p(s.last()) {
        Some((s.len() - 1) as usize)
    } else {
        last_index(s.drop_last(), p)
    }
}

/// Whether some location of `s` equals `l`.
pub open spec fn contains_loc(s: Seq<Location>, l: Location) -> bool {
    exists|j: int| 0 <= j < s.len() && loc_eq(#[trigger] s[j], l)
}

/// Whether some path of `s` is the same path as `p`.
pub open spec fn contains_path(s: Seq<String>, p: Seq<char>) -> bool {
    exists|j: int| 0 <= j < s.len() && path_eq(#[trigger] s[j]@, p)
}

impl Item {
    /// The path of the item's location, if it has one.
    pub fn path_opt(&self) -> (r: Option<&String>)
        ensures
            match r {
                Some(p) => item_path(*self) == Some(p@),
                None => item_path(*self) is None,
            },
    {
        match &self.location_opt {
            Some(l) => l.path_opt(),
            None => None,
        }
    }
}

/// Whether the items `b` are the items `a` after a drag rectangle: item `i`
/// overlaps it when `overlaps[i]` is true (a missing entry counts as no
/// overlap). Without modifiers the overlapped items are selected; with
/// control or shift an item whose overlap changed toggles its selection.
/// Nothing else of an item changes.
pub open spec fn rect_applied(a: Seq<Item>, b: Seq<Item>, overlaps: Seq<bool>, mod_ctrl: bool, mod_shift: bool) -> bool {
    &&& b.len() == a.len()
    &&& forall|i: int|
        0 <= i < b.len() ==> {
            let x = #[trigger] a[i];
            let y = b[i];
            let hit = i < overlaps.len() && overlaps[i];
            &&& y == Item { selected: y.selected, overlaps_drag_rect: y.overlaps_drag_rect, ..x }
            &&& y.overlaps_drag_rect == hit
            &&& y.selected == if mod_ctrl || mod_shift {
                if x.overlaps_drag_rect == hit {
                    x.selected
                } else {
                    !x.selected
                }
            } else {
                hit
            }
        }
}

/// Sets the selection of item `i`.
fn set_selected(items: &mut Vec<Item>, i: usize, b: bool)
    requires
        i < old(items)@.len(),
    ensures
        final(items)@ == old(items)@.update(i as int, with_selected(old(items)@[i as int], b)),
{
    items[i].selected = b;
}

/// Sets the cut mark of item `i`.
fn set_cut(items: &mut Vec<Item>, i: usize, b: bool)
    requires
        i < old(items)@.len(),
    ensures
        final(items)@ == old(items)@.update(i as int, with_cut(old(items)@[i as int], b)),
{
    items[i].cut = b;
}

/// The locations of the selected items.
fn collect_selected(items: &Vec<Item>) -> (r: Vec<Location>)
    ensures
        r@ == selected_locs(items@),
{
    let mut out: Vec<Location> = Vec::new();
    let mut i: usize = 0;
    while i < items.len()
        invariant
            i <= items@.len(),
            out@ == selected_locs(items@.take(i as int)),
        decreases items@.len() - i,
    {
        assert(items@.take(i as int + 1).drop_last() =~= items@.take(i as int));
        let it = &items[i];
        if it.selected {
            match &it.location_opt {
                Some(l) => out.push(l.duplicate()),
                None => {},
            }
        }
        i = i + 1;
    }
    assert(items@.take(i as int) =~= items@);
    out
}

/// Whether a location is among `locs`.
fn locations_contain(locs: &Vec<Location>, l: &Location) -> (r: bool)
    ensures
        r == contains_loc(locs@, *l),
{
    let mut j: usize = 0;
    while j < locs.len()
        invariant
            j <= locs@.len(),
            forall|k: int| 0 <= k < j ==> !loc_eq(#[trigger] locs@[k], *l),
        decreases locs@.len() - j,
    {
        if location_eq(&locs[j], l) {
            return true;
        }
        j = j + 1;
    }
    false
}

/// Whether a path is among `paths`.
fn paths_contain(paths: &Vec<String>, p: &str) -> (r: bool)
    ensures
        r == contains_path(paths@, p@),
{
    let mut j: usize = 0;
    while j < paths.len()
        invariant
            j <= paths@.len(),
            forall|k: int| 0 <= k < j ==> !path_eq(#[trigger] paths@[k]@, p@),
        decreases paths@.len() - j,
    {
        if same_path(paths[j].as_str(), p) {
            return true;
        }
        j = j + 1;
    }
    false
}

/// A tab: the location it shows, the locations it went through, the items
/// of the location once they are read, and the selection among them.
pub struct Tab {
    pub location: Location,
    pub history: Vec<Location>,
    /// The position of the current location in the history.
    pub history_i: usize,
    pub items_opt: Option<Vec<Item>>,
    /// The item that keyboard navigation starts from.
    pub select_focus: Option<usize>,
    /// The first and last item of a range selected with shift held.
    pub select_range: Option<(usize, usize)>,
    pub edit_location: Option<EditLocation>,
    pub mode: Mode,
    pub show_hidden: bool,
    /// The column the items are sorted by, and whether ascending.
    pub sort_name: HeadingOptions,
    pub sort_direction: bool,
    /// The item that the last press went to, while it may become a drag.
    pub clicked: Option<usize>,
    /// Whether the last press selected an item.
    pub selected_clicked: bool,
}

/// The items of a tab, as a sequence (empty when they are not read yet).
pub open spec fn items_of(t: Tab) -> Seq<Item> {
    match t.items_opt {
        Some(v) => v@,
        None => seq![],
    }
}

/// `b` is the tab `a` with, at most, another selection and focus.
pub open spec fn selection_frame(a: Tab, b: Tab) -> bool {
    &&& b.location == a.location
    &&& b.history == a.history
    &&& b.history_i == a.history_i
    &&& b.edit_location == a.edit_location
    &&& b.mode == a.mode
    &&& b.show_hidden == a.show_hidden
    &&& b.sort_name == a.sort_name
    &&& b.sort_direction == a.sort_direction
    &&& b.clicked == a.clicked
    &&& b.selected_clicked == a.selected_clicked
    &&& (a.items_opt is Some <==> b.items_opt is Some)
    &&& only_selection_changed(items_of(a), items_of(b))
}

impl Tab {
    /// Takes the items out of the tab.
    fn take_items(&mut self) -> (r: Option<Vec<Item>>)
        ensures
            r == old(self).items_opt,
            final(self).items_opt is None,
            final(self).location == old(self).location,
            final(self).history == old(self).history,
            final(self).history_i == old(self).history_i,
            final(self).select_focus == old(self).select_focus,
            final(self).select_range == old(self).select_range,
            final(self).edit_location == old(self).edit_location,
            final(self).mode == old(self).mode,
            final(self).show_hidden == old(self).show_hidden,
            final(self).sort_name == old(self).sort_name,
            final(self).sort_direction == old(self).sort_direction,
            final(self).clicked == old(self).clicked,
            final(self).selected_clicked == old(self).selected_clicked,
    {
        let mut tmp: Option<Vec<Item>> = None;
        std::mem::swap(&mut tmp, &mut self.items_opt);
        tmp
    }

    /// The items, once they are read.
    pub fn items_opt(&self) -> (r: Option<&Vec<Item>>)
        ensures
            match r {
                Some(v) => self.items_opt == Some(*v),
                None => self.items_opt is None,
            },
    {
        self.items_opt.as_ref()
    }

    /// The locations of the selected items, in order.
    pub fn selected_locations(&self) -> (r: Vec<Location>)
        ensures
            r@ == selected_locs(items_of(*self)),
    {
        match &self.items_opt {
            Some(items) => collect_selected(items),
            None => Vec::new(),
        }
    }

    /// Selects every item, but the hidden ones when hidden files are not
    /// shown.
    pub fn select_all(&mut self)
        ensures
            selection_frame(*old(self), *final(self)),
            final(self).select_focus == old(self).select_focus,
            final(self).select_range == old(self).select_range,
            forall|i: int|
                0 <= i < items_of(*final(self)).len() ==> #[trigger] items_of(*final(self))[i].selected == (
                old(self).show_hidden || !items_of(*old(self))[i].hidden),
    {
        let ghost before = items_of(*self);
        let taken = self.take_items();
        match taken {
            None => {},
            Some(mut items) => {
                let mut i: usize = 0;
                while i < items.len()
                    invariant
                        i <= items@.len(),
                        before.len() == items@.len(),
                        only_selection_changed(before, items@),
                        forall|k: int| 0 <= k < i ==> #[trigger] items@[k].selected == (self.show_hidden || !before[k].hidden),
                    decreases items@.len() - i,
                {
                    let b = self.show_hidden || !items[i].hidden;
                    set_selected(&mut items, i, b);
                    i = i + 1;
                }
                self.items_opt = Some(items);
            },
        }
    }

    /// Deselects every item and forgets the focus; says whether anything
    /// was selected.
    pub fn select_none(&mut self) -> (r: bool)
        ensures
            selection_frame(*old(self), *final(self)),
            final(self).select_focus is None,
            final(self).select_range == old(self).select_range,
            forall|i: int| 0 <= i < items_of(*final(self)).len() ==> !(#[trigger] items_of(*final(self))[i].selected),
            r == exists|i: int| 0 <= i < items_of(*old(self)).len() && (#[trigger] items_of(*old(self))[i]).selected,
    {
        self.select_focus = None;
        let ghost before = items_of(*self);
        let mut had_selection = false;
        let taken = self.take_items();
        match taken {
            None => {},
            Some(mut items) => {
                let mut i: usize = 0;
                while i < items.len()
                    invariant
                        i <= items@.len(),
                        before.len() == items@.len(),
                        only_selection_changed(before, items@),
                        forall|k: int| 0 <= k < i ==> !(#[trigger] items@[k].selected),
                        forall|k: int| i <= k < items@.len() ==> #[trigger] items@[k] == before[k],
                        had_selection == exists|k: int| 0 <= k < i && (#[trigger] before[k]).selected,
                    decreases items@.len() - i,
                {
                    assert(items@[i as int] == before[i as int]);
                    if items[i].selected {
                        set_selected(&mut items, i, false);
                        had_selection = true;
                        assert(before[i as int].selected);
                    } else {
                        assert(!before[i as int].selected);
                    }
                    i = i + 1;
                }
                self.items_opt = Some(items);
            },
        }
        had_selection
    }

    /// Marks as cut exactly the selected items.
    pub fn cut_selected(&mut self)
        ensures
            final(self).location == old(self).location,
            final(self).history == old(self).history,
            final(self).history_i == old(self).history_i,
            final(self).select_focus == old(self).select_focus,
            final(self).select_range == old(self).select_range,
            (old(self).items_opt is Some <==> final(self).items_opt is Some),
            only_cut_changed(items_of(*old(self)), items_of(*final(self))),
            forall|i: int|
                0 <= i < items_of(*final(self)).len() ==> #[trigger] items_of(*final(self))[i].cut
                    == items_of(*old(self))[i].selected,
    {
        let ghost before = items_of(*self);
        let taken = self.take_items();
        match taken {
            None => {},
            Some(mut items) => {
                let mut i: usize = 0;
                while i < items.len()
                    invariant
                        i <= items@.len(),
                        only_cut_changed(before, items@),
                        forall|k: int| 0 <= k < i ==> #[trigger] items@[k].cut == before[k].selected,
                    decreases items@.len() - i,
                {
                    let b = items[i].selected;
                    set_cut(&mut items, i, b);
                    i = i + 1;
                }
                self.items_opt = Some(items);
            },
        }
    }

    /// Marks as cut exactly the items whose path is among `locations`.
    pub fn refresh_cut(&mut self, locations: &Vec<String>)
        ensures
            final(self).location == old(self).location,
            final(self).history == old(self).history,
            final(self).history_i == old(self).history_i,
            final(self).select_focus == old(self).select_focus,
            final(self).select_range == old(self).select_range,
            (old(self).items_opt is Some <==> final(self).items_opt is Some),
            only_cut_changed(items_of(*old(self)), items_of(*final(self))),
            forall|i: int|
                0 <= i < items_of(*final(self)).len() ==> #[trigger] items_of(*final(self))[i].cut == match item_path(
                    items_of(*old(self))[i],
                ) {
                    Some(p) => contains_path(locations@, p),
                    None => false,
                },
    {
        let ghost before = items_of(*self);
        let taken = self.take_items();
        match taken {
            None => {},
            Some(mut items) => {
                let mut i: usize = 0;
                while i < items.len()
                    invariant
                        i <= items@.len(),
                        only_cut_changed(before, items@),
                        forall|k: int|
                            0 <= k < i ==> #[trigger] items@[k].cut == match item_path(before[k]) {
                                Some(p) => contains_path(locations@, p),
                                None => false,
                            },
                    decreases items@.len() - i,
                {
                    let b = match items[i].path_opt() {
                        Some(p) => paths_contain(locations, p.as_str()),
                        None => false,
                    };
                    set_cut(&mut items, i, b);
                    i = i + 1;
                }
                self.items_opt = Some(items);
            },
        }
    }
}

/// Whether an item is named `name`.
pub open spec fn named(name: Seq<char>) -> spec_fn(Item) -> bool {
    |it: Item| it.name@ == name
}

/// Whether an item's path is among `paths`.
pub open spec fn path_among(paths: Seq<String>) -> spec_fn(Item) -> bool {
    |it: Item|
        match item_path(it) {
            Some(p) => contains_path(paths, p),
            None => false,
        }
}

/// Whether an item's location is among `locs`.
pub open spec fn location_among(locs: Seq<Location>) -> spec_fn(Item) -> bool {
    |it: Item|
        match it.location_opt {
            Some(l) => contains_loc(locs, l),
            None => false,
        }
}

/// The last index of the first `n` items that `p` holds of is `n - 1` if
/// `p` holds of item `n - 1`, else the last index among the first `n - 1`.
proof fn lemma_last_index_step(s: Seq<Item>, n: int, p: spec_fn(Item) -> bool)
    requires
        0 <= n < s.len(),
    ensures
        last_index(s.take(n + 1), p) == if p(s[n]) {
            Some(n as usize)
        } else {
            last_index(s.take(n), p)
        },
{
    assert(s.take(n + 1).drop_last() =~= s.take(n));
    assert(s.take(n + 1).last() == s[n]);
}

/// Selects exactly the items of which `p` holds, and returns the last
/// such index.
fn select_where(items: &mut Vec<Item>, Ghost(p): Ghost<spec_fn(Item) -> bool>, keep: &Vec<bool>) -> (r: Option<usize>)
    requires
        keep@.len() == old(items)@.len(),
        forall|i: int| 0 <= i < keep@.len() ==> #[trigger] keep@[i] == p(old(items)@[i]),
    ensures
        only_selection_changed(old(items)@, final(items)@),
        forall|i: int| 0 <= i < final(items)@.len() ==> #[trigger] final(items)@[i].selected == p(old(items)@[i]),
        r == last_index(old(items)@, p),
{
    let ghost before = items@;
    let mut focus: Option<usize> = None;
    let mut i: usize = 0;
    while i < items.len()
        invariant
            i <= items@.len(),
            keep@.len() == before.len(),
            forall|k: int| 0 <= k < keep@.len() ==> #[trigger] keep@[k] == p(before[k]),
            only_selection_changed(before, items@),
            forall|k: int| 0 <= k < i ==> #[trigger] items@[k].selected == p(before[k]),
            focus == last_index(before.take(i as int), p),
        decreases items@.len() - i,
    {
        proof {
            lemma_last_index_step(before, i as int, p);
        }
        let b = keep[i];
        set_selected(items, i, b);
        if b {
            focus = Some(i);
        }
        i = i + 1;
    }
    assert(before.take(i as int) =~= before);
    focus
}

/// Whether two locations both have paths and the paths are the same.
pub open spec fn same_path_locs(a: Location, b: Location) -> bool {
    match (spec_path_opt(a), spec_path_opt(b)) {
        (Some(p), Some(q)) => path_eq(p, q),
        _ => false,
    }
}

/// The history after going to `l` from position `hi`: the entries after
/// `hi` are dropped, the last entry is dropped too if it has the same path
/// as `l`, and `l` is added at the end.
pub open spec fn visited_history(h: Seq<Location>, hi: usize, l: Location) -> Seq<Location> {
    let kept = if hi + 1 <= h.len() {
        h.take(hi + 1)
    } else {
        h
    };
    let compact = if kept.len() > 0 && same_path_locs(kept.last(), l) {
        kept.drop_last()
    } else {
        kept
    };
    compact.push(l)
}

/// `new` is the tab `old` after going to `l`, at history position `opt`
/// when moving within the history, else as a new visit: the location is
/// normalised, the items are to be read again, the focus and the location
/// being typed are dropped.
pub open spec fn location_changed(old: Tab, l: Location, opt: Option<usize>, new: Tab) -> bool {
    &&& normalized(l, new.location)
    &&& new.items_opt is None
    &&& new.select_focus is None
    &&& new.select_range == old.select_range
    &&& new.edit_location is None
    &&& new.mode == old.mode
    &&& new.show_hidden == old.show_hidden
    &&& new.sort_name == old.sort_name
    &&& new.sort_direction == old.sort_direction
    &&& new.clicked == old.clicked
    &&& new.selected_clicked == old.selected_clicked
    &&& match opt {
        Some(i) => new.history@ == old.history@ && new.history_i == i,
        None => new.history@ == visited_history(old.history@, old.history_i, l) && new.history_i + 1
            == new.history@.len(),
    }
}

/// The history entry before the current one, with its position.
pub open spec fn prev_target(t: Tab) -> Option<(Location, usize)> {
    if t.history_i >= 1 && t.history_i - 1 < t.history@.len() {
        Some((t.history@[t.history_i - 1], (t.history_i - 1) as usize))
    } else {
        None
    }
}

/// The history entry after the current one, with its position.
pub open spec fn next_target(t: Tab) -> Option<(Location, usize)> {
    if t.history_i < usize::MAX && t.history_i + 1 < t.history@.len() {
        Some((t.history@[t.history_i + 1], (t.history_i + 1) as usize))
    } else {
        None
    }
}

impl Tab {
    /// A tab showing `location`, normalised, as the only entry of its
    /// history.
    pub fn new(location: Location, show_hidden: bool, sort: (HeadingOptions, bool)) -> (r: Tab)
        ensures
            normalized(location, r.location),
            r.history@ == seq![r.location],
            r.history_i == 0,
            r.items_opt is None,
            r.select_focus is None,
            r.select_range is None,
            r.edit_location is None,
            r.mode == Mode::App,
            r.show_hidden == show_hidden,
            r.sort_name == sort.0,
            r.sort_direction == sort.1,
            r.clicked is None,
            !r.selected_clicked,
    {
        let location = location.normalize();
        let mut history: Vec<Location> = Vec::new();
        history.push(location.duplicate());
        Tab {
            location,
            history,
            history_i: 0,
            items_opt: None,
            select_focus: None,
            select_range: None,
            edit_location: None,
            mode: Mode::App,
            show_hidden,
            sort_name: sort.0,
            sort_direction: sort.1,
            clicked: None,
            selected_clicked: false,
        }
    }

    /// Selects exactly the items named `name`; the focus goes to the last
    /// of them, or nowhere.
    pub fn select_name(&mut self, name: &str)
        ensures
            selection_frame(*old(self), *final(self)),
            final(self).select_range == old(self).select_range,
            forall|i: int|
                0 <= i < items_of(*final(self)).len() ==> #[trigger] items_of(*final(self))[i].selected == (
                items_of(*old(self))[i].name@ == name@),
            final(self).select_focus == last_index(items_of(*old(self)), named(name@)),
    {
        self.select_focus = None;
        let taken = self.take_items();
        match taken {
            None => {},
            Some(mut items) => {
                let mut keep: Vec<bool> = Vec::new();
                let mut i: usize = 0;
                while i < items.len()
                    invariant
                        i <= items@.len(),
                        keep@.len() == i,
                        forall|k: int| 0 <= k < i ==> #[trigger] keep@[k] == named(name@)(items@[k]),
                    decreases items@.len() - i,
                {
                    keep.push(crate::text::str_equal(items[i].name.as_str(), name));
                    i = i + 1;
                }
                let focus = select_where(&mut items, Ghost(named(name@)), &keep);
                self.select_focus = focus;
                self.items_opt = Some(items);
            },
        }
    }

    /// Selects exactly the items whose path is among `paths`; the focus goes
    /// to the last of them, or nowhere.
    pub fn select_paths(&mut self, paths: Vec<String>)
        ensures
            selection_frame(*old(self), *final(self)),
            final(self).select_range == old(self).select_range,
            forall|i: int|
                0 <= i < items_of(*final(self)).len() ==> #[trigger] items_of(*final(self))[i].selected == path_among(
                    paths@,
                )(items_of(*old(self))[i]),
            final(self).select_focus == last_index(items_of(*old(self)), path_among(paths@)),
    {
        self.select_focus = None;
        let taken = self.take_items();
        match taken {
            None => {},
            Some(mut items) => {
                let mut keep: Vec<bool> = Vec::new();
                let mut i: usize = 0;
                while i < items.len()
                    invariant
                        i <= items@.len(),
                        keep@.len() == i,
                        forall|k: int| 0 <= k < i ==> #[trigger] keep@[k] == path_among(paths@)(items@[k]),
                    decreases items@.len() - i,
                {
                    let b = match items[i].path_opt() {
                        Some(p) => paths_contain(&paths, p.as_str()),
                        None => false,
                    };
                    keep.push(b);
                    i = i + 1;
                }
                let focus = select_where(&mut items, Ghost(path_among(paths@)), &keep);
                self.select_focus = focus;
                self.items_opt = Some(items);
            },
        }
    }

    /// Shows `items`, keeping selected those whose location was selected
    /// before.
    pub fn set_items(&mut self, items: Vec<Item>)
        ensures
            final(self).location == old(self).location,
            final(self).history == old(self).history,
            final(self).history_i == old(self).history_i,
            final(self).select_focus == old(self).select_focus,
            final(self).select_range == old(self).select_range,
            final(self).edit_location == old(self).edit_location,
            final(self).mode == old(self).mode,
            final(self).show_hidden == old(self).show_hidden,
            final(self).sort_name == old(self).sort_name,
            final(self).sort_direction == old(self).sort_direction,
            final(self).items_opt is Some,
            only_selection_changed(items@, items_of(*final(self))),
            forall|i: int|
                0 <= i < items@.len() ==> #[trigger] items_of(*final(self))[i].selected == location_among(
                    selected_locs(items_of(*old(self))),
                )(items@[i]),
    {
        let selected = self.selected_locations();
        let mut items = items;
        let mut keep: Vec<bool> = Vec::new();
        let mut i: usize = 0;
        while i < items.len()
            invariant
                i <= items@.len(),
                keep@.len() == i,
                forall|k: int| 0 <= k < i ==> #[trigger] keep@[k] == location_among(selected@)(items@[k]),
            decreases items@.len() - i,
        {
            let b = match &items[i].location_opt {
                Some(l) => locations_contain(&selected, l),
                None => false,
            };
            keep.push(b);
            i = i + 1;
        }
        let _ = select_where(&mut items, Ghost(location_among(selected@)), &keep);
        self.items_opt = Some(items);
    }

    /// Applies a drag rectangle: item `i` overlaps it when `overlaps[i]` is
    /// true (a missing entry counts as no overlap). Without modifiers the
    /// overlapped items are selected; with control or shift an item whose
    /// overlap changed toggles its selection.
    pub fn select_rect(&mut self, overlaps: &Vec<bool>, mod_ctrl: bool, mod_shift: bool)
        ensures
            final(self).location == old(self).location,
            final(self).history == old(self).history,
            final(self).history_i == old(self).history_i,
            final(self).select_focus == old(self).select_focus,
            final(self).select_range == old(self).select_range,
            final(self).mode == old(self).mode,
            final(self).edit_location == old(self).edit_location,
            final(self).show_hidden == old(self).show_hidden,
            final(self).clicked == old(self).clicked,
            (old(self).items_opt is Some <==> final(self).items_opt is Some),
            rect_applied(items_of(*old(self)), items_of(*final(self)), overlaps@, mod_ctrl, mod_shift),
    {
        let ghost before = items_of(*self);
        let taken = self.take_items();
        match taken {
            None => {},
            Some(mut items) => {
                let mut i: usize = 0;
                while i < items.len()
                    invariant
                        i <= items@.len(),
                        items@.len() == before.len(),
                        forall|k: int| i <= k < items@.len() ==> #[trigger] items@[k] == before[k],
                        forall|k: int|
                            0 <= k < i ==> {
                                let a = #[trigger] before[k];
                                let b = items@[k];
                                let hit = k < overlaps@.len() && overlaps@[k];
                                &&& b == Item { selected: b.selected, overlaps_drag_rect: b.overlaps_drag_rect, ..a }
                                &&& b.overlaps_drag_rect == hit
                                &&& b.selected == if mod_ctrl || mod_shift {
                                    if a.overlaps_drag_rect == hit {
                                        a.selected
                                    } else {
                                        !a.selected
                                    }
                                } else {
                                    hit
                                }
                            },
                    decreases items@.len() - i,
                {
                    let hit = i < overlaps.len() && overlaps[i];
                    let was = items[i].overlaps_drag_rect;
                    let sel = items[i].selected;
                    items[i].overlaps_drag_rect = hit;
                    items[i].selected = if mod_ctrl || mod_shift {
                        if was == hit {
                            sel
                        } else {
                            !sel
                        }
                    } else {
                        hit
                    };
                    i = i + 1;
                }
                self.items_opt = Some(items);
            },
        }
    }

    /// The history entry before the current one, with its position.
    pub fn previous_in_history(&self) -> (r: Option<(Location, usize)>)
        ensures
            r == prev_target(*self),
    {
        if self.history_i >= 1 && self.history_i - 1 < self.history.len() {
            let i = self.history_i - 1;
            Some((self.history[i].duplicate(), i))
        } else {
            None
        }
    }

    /// The history entry after the current one, with its position.
    pub fn next_in_history(&self) -> (r: Option<(Location, usize)>)
        ensures
            r == next_target(*self),
    {
        if self.history_i < usize::MAX && self.history_i + 1 < self.history.len() {
            let i = self.history_i + 1;
            Some((self.history[i].duplicate(), i))
        } else {
            None
        }
    }

    /// Goes to `location`: to position `history_i_opt` of the history when
    /// moving within it, else as a new visit that drops the entries after
    /// the current one (and the last entry too if it has the same path).
    pub fn change_location(&mut self, location: &Location, history_i_opt: Option<usize>)
        requires
            history_i_opt is None ==> old(self).history_i < usize::MAX,
        ensures
            location_changed(*old(self), *location, history_i_opt, *final(self)),
    {
        self.location = location.normalize();
        self.edit_location = None;
        self.items_opt = None;
        self.select_focus = None;
        match history_i_opt {
            Some(history_i) => {
                self.history_i = history_i;
            },
            None => {
                let ghost h = self.history@;
                let ghost hi = self.history_i;
                self.history.truncate(self.history_i + 1);
                let ghost kept = self.history@;
                assert(kept == if hi + 1 <= h.len() {
                    h.take(hi + 1)
                } else {
                    h
                });
                let mut remove = false;
                let n = self.history.len();
                if n > 0 {
                    match self.history[n - 1].path_opt() {
                        Some(last_path) => match location.path_opt() {
                            Some(path) => {
                                remove = same_path(last_path.as_str(), path.as_str());
                            },
                            None => {},
                        },
                        None => {},
                    }
                }
                assert(remove == (kept.len() > 0 && same_path_locs(kept.last(), *location)));
                if remove {
                    self.history.pop();
                }
                self.history_i = self.history.len();
                self.history.push(location.duplicate());
            },
        }
    }
}

/// Going back in the history and then forward again returns to the same
/// history, at the same position, showing the same entry (normalised).
pub proof fn lemma_back_then_forward(t0: Tab, back: Location, back_i: usize, t1: Tab, t2: Tab)
    requires
        t0.history_i < t0.history@.len(),
        prev_target(t0) == Some((back, back_i)),
        location_changed(t0, back, Some(back_i), t1),
        location_changed(t1, t0.history@[t0.history_i as int], Some(t0.history_i), t2),
    ensures
        next_target(t1) == Some((t0.history@[t0.history_i as int], t0.history_i)),
        t2.history@ == t0.history@,
        t2.history_i == t0.history_i,
        normalized(t0.history@[t0.history_i as int], t2.location),
{
}

/// After a new visit to a location whose path differs from the current
/// entry's, there is nothing to go forward to, and going back leads to the
/// entry that was current.
pub proof fn lemma_visit_then_back(t0: Tab, l: Location, t1: Tab)
    requires
        t0.history_i < t0.history@.len(),
        !same_path_locs(t0.history@[t0.history_i as int], l),
        location_changed(t0, l, None, t1),
    ensures
        next_target(t1) is None,
        prev_target(t1) == Some((t0.history@[t0.history_i as int], t0.history_i)),
        t1.history@.last() == l,
{
    let kept = t0.history@.take(t0.history_i + 1);
    assert(kept.last() == t0.history@[t0.history_i as int]);
}

/// A new tab has nothing to go back or forward to.
pub proof fn lemma_new_tab_history(t: Tab)
    requires
        t.history@.len() == 1,
        t.history_i == 0,
    ensures
        prev_target(t) is None,
        next_target(t) is None,
{
}

/// A grid position: row and column.
pub type Pos = (usize, usize);

/// The selection of a tab: whether it has items, which are selected, the
/// focused item and the shift-selected range.
#[verifier::ext_equal]
pub struct Sel {
    pub has_items: bool,
    pub flags: Seq<bool>,
    pub focus: Option<usize>,
    pub range: Option<(usize, usize)>,
}

/// The selection of a tab.
pub open spec fn sel_of(t: Tab) -> Sel {
    Sel {
        has_items: t.items_opt is Some,
        flags: items_of(t).map_values(|it: Item| it.selected),
        focus: t.select_focus,
        range: t.select_range,
    }
}

/// The grid positions of a tab's items.
pub open spec fn positions_of(t: Tab) -> Seq<Option<Pos>> {
    items_of(t).map_values(|it: Item| it.pos_opt)
}

/// `a` comes before `b` in reading order.
pub open spec fn pos_before(a: Pos, b: Pos) -> bool {
    a.0 < b.0 || (a.0 == b.0 && a.1 < b.1)
}

/// The index of the last item at `target`, if any.
pub open spec fn last_at(pos: Seq<Option<Pos>>, target: Pos) -> Option<usize>
    decreases pos.len(),
{
    if pos.len() == 0 {
        None
    } else if pos.last() == Some(target) {
        Some((pos.len() - 1) as usize)
    } else {
        last_at(pos.drop_last(), target)
    }
}

/// The range to extend when selecting with shift: the current range, or,
/// when there is no focus or no range yet, the focused item alone.
pub open spec fn shift_range(s: Sel, shift: bool) -> Option<(usize, usize)> {
    if shift && (s.focus is None || s.range is None) {
        match s.focus {
            Some(i) => Some((i, i)),
            None => None,
        }
    } else {
        s.range
    }
}

/// The position where a shift selection starts, if any.
pub open spec fn anchor_pos(s: Sel, pos: Seq<Option<Pos>>, shift: bool) -> Option<Pos> {
    if shift && s.has_items {
        match shift_range(s, shift) {
            Some(r) => if r.0 < pos.len() {
                pos[r.0 as int]
            } else {
                None
            },
            None => None,
        }
    } else {
        None
    }
}

/// The first position of the span selected by a click at `target`.
pub open spec fn span_start(anchor: Option<Pos>, target: Pos) -> Pos {
    match anchor {
        Some(p) => if pos_before(p, target) {
            p
        } else {
            target
        },
        None => target,
    }
}

/// The last position of the span selected by a click at `target`.
pub open spec fn span_end(anchor: Option<Pos>, target: Pos) -> Pos {
    match anchor {
        Some(p) => if pos_before(p, target) {
            target
        } else {
            p
        },
        None => target,
    }
}

/// Whether a position lies within a span.
pub open spec fn in_span(p: Option<Pos>, start: Pos, end: Pos) -> bool {
    match p {
        Some(q) => !pos_before(q, start) && !pos_before(end, q),
        None => false,
    }
}

/// The selection after selecting the item at `(row, col)`: the items of the
/// span from the shift anchor (or of that position alone) are selected and
/// no others; the last item at that position takes the focus and ends the
/// range, which it starts too without shift.
pub open spec fn select_position_spec(s: Sel, pos: Seq<Option<Pos>>, row: usize, col: usize, shift: bool) -> Sel {
    let target = (row, col);
    let range0 = shift_range(s, shift);
    let anchor = anchor_pos(s, pos, shift);
    let start = span_start(anchor, target);
    let end = span_end(anchor, target);
    if !s.has_items {
        Sel { range: range0, ..s }
    } else {
        let flags = Seq::new(pos.len(), |i: int| in_span(pos[i], start, end));
        match last_at(pos, target) {
            None => Sel { has_items: true, flags, focus: s.focus, range: range0 },
            Some(i) => Sel {
                has_items: true,
                flags,
                focus: Some(i),
                range: if shift {
                    match range0 {
                        Some(r) => Some((r.0, i)),
                        None => None,
                    }
                } else {
                    Some((i, i))
                },
            },
        }
    }
}

/// Whether an item lies at `(row, col)`.
pub open spec fn position_found(s: Sel, pos: Seq<Option<Pos>>, row: usize, col: usize) -> bool {
    s.has_items && last_at(pos, (row, col)) is Some
}

/// `b` is `a` with other selections, focus and range at most.
pub open spec fn same_but_selection(a: Tab, b: Tab) -> bool {
    &&& b.location == a.location
    &&& b.history == a.history
    &&& b.history_i == a.history_i
    &&& b.edit_location == a.edit_location
    &&& b.mode == a.mode
    &&& b.show_hidden == a.show_hidden
    &&& b.sort_name == a.sort_name
    &&& b.sort_direction == a.sort_direction
    &&& b.clicked == a.clicked
    &&& b.selected_clicked == a.selected_clicked
    &&& (a.items_opt is Some <==> b.items_opt is Some)
    &&& only_selection_changed(items_of(a), items_of(b))
}

proof fn lemma_last_at_step(pos: Seq<Option<Pos>>, n: int, target: Pos)
    requires
        0 <= n < pos.len(),
    ensures
        last_at(pos.take(n + 1), target) == if pos[n] == Some(target) {
            Some(n as usize)
        } else {
            last_at(pos.take(n), target)
        },
{
    assert(pos.take(n + 1).drop_last() =~= pos.take(n));
    assert(pos.take(n + 1).last() == pos[n]);
}

proof fn lemma_sel_positions(a: Tab, b: Tab)
    requires
        same_but_selection(a, b),
    ensures
        positions_of(b) =~= positions_of(a),
{
    assert forall|i: int| 0 <= i < positions_of(a).len() implies positions_of(b)[i] == positions_of(a)[i] by {
        assert(items_of(b)[i] == with_selected(items_of(a)[i], items_of(b)[i].selected));
    }
}

impl Tab {
    /// Selects the item at `(row, col)`, with the span from the shift anchor
    /// when `mod_shift`; says whether an item lies there.
    pub fn select_position(&mut self, row: usize, col: usize, mod_shift: bool) -> (r: bool)
        ensures
            same_but_selection(*old(self), *final(self)),
            positions_of(*final(self)) == positions_of(*old(self)),
            sel_of(*final(self)) == select_position_spec(sel_of(*old(self)), positions_of(*old(self)), row, col, mod_shift),
            r == position_found(sel_of(*old(self)), positions_of(*old(self)), row, col),
    {
        let ghost s0 = sel_of(*self);
        let ghost pos = positions_of(*self);
        let ghost before = items_of(*self);
        let target = (row, col);
        if mod_shift {
            if self.select_focus.is_none() || self.select_range.is_none() {
                self.select_range = match self.select_focus {
                    Some(i) => Some((i, i)),
                    None => None,
                };
            }
        }
        let range0 = self.select_range;
        assert(range0 == shift_range(s0, mod_shift));
        let mut anchor: Option<(usize, usize)> = None;
        if mod_shift {
            match (&self.items_opt, range0) {
                (Some(items), Some(r)) => {
                    if r.0 < items.len() {
                        anchor = items[r.0].pos_opt;
                    }
                },
                _ => {},
            }
        }
        assert(anchor == anchor_pos(s0, pos, mod_shift));
        let mut start = target;
        let mut end = target;
        match anchor {
            Some(p) => {
                if p.0 < row || (p.0 == row && p.1 < col) {
                    start = p;
                } else {
                    end = p;
                }
            },
            None => {},
        }
        let taken = self.take_items();
        match taken {
            None => {
                assert(sel_of(*self).flags =~= s0.flags);
                false
            },
            Some(mut items) => {
                let mut hit: Option<usize> = None;
                let mut i: usize = 0;
                while i < items.len()
                    invariant
                        i <= items@.len(),
                        items@.len() == before.len(),
                        pos.len() == before.len(),
                        forall|k: int| 0 <= k < pos.len() ==> #[trigger] pos[k] == before[k].pos_opt,
                        only_selection_changed(before, items@),
                        forall|k: int| 0 <= k < i ==> #[trigger] items@[k].selected == in_span(pos[k], start, end),
                        hit == last_at(pos.take(i as int), target),
                    decreases items@.len() - i,
                {
                    proof {
                        lemma_last_at_step(pos, i as int, target);
                    }
                    assert(items@[i as int].pos_opt == before[i as int].pos_opt);
                    let b = match items[i].pos_opt {
                        Some(p) => !(p.0 < start.0 || (p.0 == start.0 && p.1 < start.1)) && !(end.0 < p.0 || (
                        end.0 == p.0 && end.1 < p.1)),
                        None => false,
                    };
                    if items[i].pos_opt == Some(target) {
                        hit = Some(i);
                    }
                    set_selected(&mut items, i, b);
                    i = i + 1;
                }
                assert(pos.take(i as int) =~= pos);
                match hit {
                    Some(h) => {
                        self.select_focus = Some(h);
                        self.select_range = if mod_shift {
                            match range0 {
                                Some(r) => Some((r.0, h)),
                                None => None,
                            }
                        } else {
                            Some((h, h))
                        };
                    },
                    None => {},
                }
                self.items_opt = Some(items);
                proof {
                    lemma_sel_positions(*old(self), *self);
                    let sp = select_position_spec(s0, pos, row, col, mod_shift);
                    assert(sel_of(*self).flags =~= sp.flags);
                }
                hit.is_some()
            },
        }
    }
}

/// One step of finding the first selected position: an earlier row wins;
/// on the same row the column becomes the smaller of the item's column and
/// the row found so far (the row, not its column, as the code compares).
pub open spec fn step_first(acc: Option<Pos>, p: Pos) -> Pos {
    match acc {
        Some(f) => if p.0 < f.0 {
            p
        } else if p.0 == f.0 {
            (
                p.0,
                if p.1 < f.0 {
                    p.1
                } else {
                    f.0
                },
            )
        } else {
            f
        },
        None => p,
    }
}

/// One step of finding the last selected position: a later row wins; on the
/// same row the column becomes the larger of the item's column and the row
/// found so far.
pub open spec fn step_last(acc: Option<Pos>, p: Pos) -> Pos {
    match acc {
        Some(f) => if p.0 > f.0 {
            p
        } else if p.0 == f.0 {
            (
                p.0,
                if p.1 > f.0 {
                    p.1
                } else {
                    f.0
                },
            )
        } else {
            f
        },
        None => p,
    }
}

/// The first position among the first `n` items that are selected and laid
/// out.
pub open spec fn first_selected_pos(flags: Seq<bool>, pos: Seq<Option<Pos>>, n: nat) -> Option<Pos>
    decreases n,
{
    if n == 0 {
        None
    } else {
        let acc = first_selected_pos(flags, pos, (n - 1) as nat);
        let i = n - 1;
        if flags[i] && pos[i] is Some {
            Some(step_first(acc, pos[i]->0))
        } else {
            acc
        }
    }
}

/// The last position among the first `n` items that are selected and laid
/// out.
pub open spec fn last_selected_pos(flags: Seq<bool>, pos: Seq<Option<Pos>>, n: nat) -> Option<Pos>
    decreases n,
{
    if n == 0 {
        None
    } else {
        let acc = last_selected_pos(flags, pos, (n - 1) as nat);
        let i = n - 1;
        if flags[i] && pos[i] is Some {
            Some(step_last(acc, pos[i]->0))
        } else {
            acc
        }
    }
}

/// The largest column on `row` among the first `n` items (zero if none).
pub open spec fn max_col_in_row(pos: Seq<Option<Pos>>, row: usize, n: nat) -> usize
    decreases n,
{
    if n == 0 {
        0
    } else {
        let c = max_col_in_row(pos, row, (n - 1) as nat);
        match pos[n - 1] {
            Some(p) => if p.0 == row && p.1 > c {
                p.1
            } else {
                c
            },
            None => c,
        }
    }
}

/// The last position in reading order among the first `n` items.
pub open spec fn max_pos(pos: Seq<Option<Pos>>, n: nat) -> Option<Pos>
    decreases n,
{
    if n == 0 {
        None
    } else {
        let m = max_pos(pos, (n - 1) as nat);
        match pos[n - 1] {
            Some(p) => match m {
                Some(q) => if pos_before(p, q) {
                    Some(q)
                } else {
                    Some(p)
                },
                None => Some(p),
            },
            None => m,
        }
    }
}

/// The focused item's position.
pub open spec fn focus_pos_spec(s: Sel, pos: Seq<Option<Pos>>) -> Option<Pos> {
    match s.focus {
        Some(i) => if s.has_items && i < pos.len() {
            pos[i as int]
        } else {
            None
        },
        None => None,
    }
}

/// The first selected position.
pub open spec fn first_pos_spec(s: Sel, pos: Seq<Option<Pos>>) -> Option<Pos> {
    if s.has_items {
        first_selected_pos(s.flags, pos, pos.len())
    } else {
        None
    }
}

/// The last selected position.
pub open spec fn last_pos_spec(s: Sel, pos: Seq<Option<Pos>>) -> Option<Pos> {
    if s.has_items {
        last_selected_pos(s.flags, pos, pos.len())
    } else {
        None
    }
}

/// `a`, else `b`.
pub open spec fn or_pos(a: Option<Pos>, b: Option<Pos>) -> Option<Pos> {
    if a is Some {
        a
    } else {
        b
    }
}

/// Rows and columns are below the largest `usize`, so that the next row or
/// column can be named.
pub open spec fn pos_bounded(pos: Seq<Option<Pos>>) -> bool {
    forall|i: int| 0 <= i < pos.len() ==> (#[trigger] pos[i] matches Some(p) ==> p.0 < usize::MAX && p.1 < usize::MAX)
}

/// Keyboard step down: from the focused item (or the last selected one,
/// focusing it first when nothing has the focus), select the item one row
/// down, else keep the current one; with nothing selected, select the
/// first position.
pub open spec fn item_down_spec(s: Sel, pos: Seq<Option<Pos>>, shift: bool) -> Sel {
    match or_pos(focus_pos_spec(s, pos), last_pos_spec(s, pos)) {
        Some(p) => {
            let s1 = if s.focus is None {
                select_position_spec(s, pos, p.0, p.1, shift)
            } else {
                s
            };
            let down = (p.0 + 1) as usize;
            let s2 = select_position_spec(s1, pos, down, p.1, shift);
            if position_found(s1, pos, down, p.1) {
                s2
            } else {
                select_position_spec(s2, pos, p.0, p.1, shift)
            }
        },
        None => select_position_spec(s, pos, 0, 0, shift),
    }
}

/// Keyboard step up: from the focused item (or the first selected one),
/// select the item one row up, else keep the current one.
pub open spec fn item_up_spec(s: Sel, pos: Seq<Option<Pos>>, shift: bool) -> Sel {
    match or_pos(focus_pos_spec(s, pos), first_pos_spec(s, pos)) {
        Some(p) => {
            let s1 = if s.focus is None {
                select_position_spec(s, pos, p.0, p.1, shift)
            } else {
                s
            };
            if p.0 >= 1 {
                let up = (p.0 - 1) as usize;
                let s2 = select_position_spec(s1, pos, up, p.1, shift);
                if position_found(s1, pos, up, p.1) {
                    s2
                } else {
                    select_position_spec(s2, pos, p.0, p.1, shift)
                }
            } else {
                select_position_spec(s1, pos, p.0, p.1, shift)
            }
        },
        None => select_position_spec(s, pos, 0, 0, shift),
    }
}

/// Keyboard step left: from the focused item (or the first selected one),
/// select the previous item on the row, else the last item of the row
/// above, else keep the current one.
pub open spec fn item_left_spec(s: Sel, pos: Seq<Option<Pos>>, shift: bool) -> Sel {
    match or_pos(focus_pos_spec(s, pos), first_pos_spec(s, pos)) {
        Some(p) => {
            let s1 = if s.focus is None {
                select_position_spec(s, pos, p.0, p.1, shift)
            } else {
                s
            };
            let left_found = p.1 >= 1 && position_found(s1, pos, p.0, (p.1 - 1) as usize);
            let s2 = if p.1 >= 1 {
                select_position_spec(s1, pos, p.0, (p.1 - 1) as usize, shift)
            } else {
                s1
            };
            if left_found {
                s2
            } else if p.0 >= 1 {
                let up = (p.0 - 1) as usize;
                let c = if s.has_items {
                    max_col_in_row(pos, up, pos.len())
                } else {
                    0
                };
                let s3 = select_position_spec(s2, pos, up, c, shift);
                if position_found(s2, pos, up, c) {
                    s3
                } else {
                    select_position_spec(s3, pos, p.0, p.1, shift)
                }
            } else {
                select_position_spec(s2, pos, p.0, p.1, shift)
            }
        },
        None => select_position_spec(s, pos, 0, 0, shift),
    }
}

/// Keyboard step right: from the focused item (or the last selected one),
/// select the next item on the row, else the first item of the next row,
/// else keep the current one.
pub open spec fn item_right_spec(s: Sel, pos: Seq<Option<Pos>>, shift: bool) -> Sel {
    match or_pos(focus_pos_spec(s, pos), last_pos_spec(s, pos)) {
        Some(p) => {
            let s1 = if s.focus is None {
                select_position_spec(s, pos, p.0, p.1, shift)
            } else {
                s
            };
            let right = (p.1 + 1) as usize;
            let s2 = select_position_spec(s1, pos, p.0, right, shift);
            if position_found(s1, pos, p.0, right) {
                s2
            } else {
                let down = (p.0 + 1) as usize;
                let s3 = select_position_spec(s2, pos, down, 0, shift);
                if position_found(s2, pos, down, 0) {
                    s3
                } else {
                    select_position_spec(s3, pos, p.0, p.1, shift)
                }
            }
        },
        None => select_position_spec(s, pos, 0, 0, shift),
    }
}

/// `new` is `old` with the location being typed stepped to the next or
/// previous completion, and nothing else changed.
pub open spec fn edit_stepped(old: Tab, new: Tab, forwards: bool) -> bool {
    &&& old.edit_location matches Some(e) && new.edit_location matches Some(f) && f.location == e.location
        && f.completions == e.completions && f.selected == crate::tab::next_selected(
        crate::tab::completions_len(e.completions),
        e.selected,
        forwards,
    )
    &&& new.location == old.location
    &&& new.history == old.history
    &&& new.history_i == old.history_i
    &&& new.items_opt == old.items_opt
    &&& new.select_focus == old.select_focus
    &&& new.select_range == old.select_range
    &&& new.mode == old.mode
    &&& new.show_hidden == old.show_hidden
    &&& new.sort_name == old.sort_name
    &&& new.sort_direction == old.sort_direction
    &&& new.clicked == old.clicked
    &&& new.selected_clicked == old.selected_clicked
}

proof fn lemma_first_pos_from_items(flags: Seq<bool>, pos: Seq<Option<Pos>>, n: nat)
    requires
        n <= pos.len(),
        pos_bounded(pos),
    ensures
        first_selected_pos(flags, pos, n) matches Some(p) ==> p.0 < usize::MAX && p.1 < usize::MAX,
        last_selected_pos(flags, pos, n) matches Some(p) ==> p.0 < usize::MAX && p.1 < usize::MAX,
    decreases n,
{
    if n > 0 {
        lemma_first_pos_from_items(flags, pos, (n - 1) as nat);
        let i = n - 1;
        assert(pos[i as int] matches Some(p) ==> p.0 < usize::MAX && p.1 < usize::MAX);
    }
}

impl Tab {
    /// The focused item's position.
    fn focus_pos(&self) -> (r: Option<Pos>)
        ensures
            r == focus_pos_spec(sel_of(*self), positions_of(*self)),
    {
        match (&self.items_opt, self.select_focus) {
            (Some(items), Some(i)) => if i < items.len() {
                items[i].pos_opt
            } else {
                None
            },
            _ => None,
        }
    }

    /// The first (`first`) or last selected position.
    fn selected_pos(&self, first: bool) -> (r: Option<Pos>)
        ensures
            first ==> r == first_pos_spec(sel_of(*self), positions_of(*self)),
            !first ==> r == last_pos_spec(sel_of(*self), positions_of(*self)),
    {
        let ghost flags = sel_of(*self).flags;
        let ghost pos = positions_of(*self);
        match &self.items_opt {
            None => None,
            Some(items) => {
                let mut acc: Option<Pos> = None;
                let mut i: usize = 0;
                while i < items.len()
                    invariant
                        i <= items@.len(),
                        flags == items@.map_values(|it: Item| it.selected),
                        pos == items@.map_values(|it: Item| it.pos_opt),
                        first ==> acc == first_selected_pos(flags, pos, i as nat),
                        !first ==> acc == last_selected_pos(flags, pos, i as nat),
                    decreases items@.len() - i,
                {
                    if items[i].selected {
                        match items[i].pos_opt {
                            Some(p) => {
                                acc = Some(
                                    match acc {
                                        Some(f) => if first {
                                            if p.0 < f.0 {
                                                p
                                            } else if p.0 == f.0 {
                                                (p.0, if p.1 < f.0 { p.1 } else { f.0 })
                                            } else {
                                                f
                                            }
                                        } else {
                                            if p.0 > f.0 {
                                                p
                                            } else if p.0 == f.0 {
                                                (p.0, if p.1 > f.0 { p.1 } else { f.0 })
                                            } else {
                                                f
                                            }
                                        },
                                        None => p,
                                    },
                                );
                            },
                            None => {},
                        }
                    }
                    i = i + 1;
                }
                acc
            },
        }
    }

    /// The largest column of the items on `row`, zero if none.
    fn max_col_in(&self, row: usize) -> (r: usize)
        ensures
            r == if self.items_opt is Some {
                max_col_in_row(positions_of(*self), row, positions_of(*self).len())
            } else {
                0
            },
    {
        let ghost pos = positions_of(*self);
        let mut col: usize = 0;
        match &self.items_opt {
            None => {},
            Some(items) => {
                let mut i: usize = 0;
                while i < items.len()
                    invariant
                        i <= items@.len(),
                        pos == items@.map_values(|it: Item| it.pos_opt),
                        col == max_col_in_row(pos, row, i as nat),
                    decreases items@.len() - i,
                {
                    match items[i].pos_opt {
                        Some(p) => if p.0 == row && p.1 > col {
                            col = p.1;
                        },
                        None => {},
                    }
                    i = i + 1;
                }
            },
        }
        col
    }

    /// The last laid-out position in reading order.
    fn last_position(&self) -> (r: Option<Pos>)
        ensures
            r == if self.items_opt is Some {
                max_pos(positions_of(*self), positions_of(*self).len())
            } else {
                None
            },
    {
        let ghost pos = positions_of(*self);
        match &self.items_opt {
            None => None,
            Some(items) => {
                let mut m: Option<Pos> = None;
                let mut i: usize = 0;
                while i < items.len()
                    invariant
                        i <= items@.len(),
                        pos == items@.map_values(|it: Item| it.pos_opt),
                        m == max_pos(pos, i as nat),
                    decreases items@.len() - i,
                {
                    match items[i].pos_opt {
                        Some(p) => {
                            m = match m {
                                Some(q) => if p.0 < q.0 || (p.0 == q.0 && p.1 < q.1) {
                                    Some(q)
                                } else {
                                    Some(p)
                                },
                                None => Some(p),
                            };
                        },
                        None => {},
                    }
                    i = i + 1;
                }
                m
            },
        }
    }

    /// Selects the first position (row 0, column 0); says whether an item
    /// lies there.
    pub fn select_first(&mut self, shift_held: bool) -> (r: bool)
        ensures
            same_but_selection(*old(self), *final(self)),
            sel_of(*final(self)) == select_position_spec(
                sel_of(*old(self)),
                positions_of(*old(self)),
                0,
                0,
                shift_held && crate::tab::spec_multiple(old(self).mode),
            ),
            r == position_found(sel_of(*old(self)), positions_of(*old(self)), 0, 0),
    {
        let mod_shift = shift_held && self.mode.multiple();
        self.select_position(0, 0, mod_shift)
    }

    /// Selects the last laid-out position, if any; says whether an item was
    /// selected.
    pub fn select_last(&mut self, shift_held: bool) -> (r: bool)
        ensures
            same_but_selection(*old(self), *final(self)),
            sel_of(*final(self)) == match (if old(self).items_opt is Some {
                max_pos(positions_of(*old(self)), positions_of(*old(self)).len())
            } else {
                None
            }) {
                Some(p) => select_position_spec(
                    sel_of(*old(self)),
                    positions_of(*old(self)),
                    p.0,
                    p.1,
                    shift_held && crate::tab::spec_multiple(old(self).mode),
                ),
                None => sel_of(*old(self)),
            },
            r == match (if old(self).items_opt is Some {
                max_pos(positions_of(*old(self)), positions_of(*old(self)).len())
            } else {
                None
            }) {
                Some(p) => position_found(sel_of(*old(self)), positions_of(*old(self)), p.0, p.1),
                None => false,
            },
    {
        let mod_shift = shift_held && self.mode.multiple();
        match self.last_position() {
            Some(p) => self.select_position(p.0, p.1, mod_shift),
            None => {
                proof {
                    assert(only_selection_changed(items_of(*self), items_of(*self)));
                }
                false
            },
        }
    }
}

proof fn lemma_same_but_selection_trans(a: Tab, b: Tab, c: Tab)
    requires
        same_but_selection(a, b),
        same_but_selection(b, c),
    ensures
        same_but_selection(a, c),
{
    assert forall|i: int| 0 <= i < items_of(a).len() implies #[trigger] items_of(c)[i] == with_selected(
        items_of(a)[i],
        items_of(c)[i].selected,
    ) by {
        assert(items_of(b)[i] == with_selected(items_of(a)[i], items_of(b)[i].selected));
        assert(items_of(c)[i] == with_selected(items_of(b)[i], items_of(c)[i].selected));
    }
}

impl Tab {
    /// Steps the location being typed to the next (`forwards`) or previous
    /// completion.
    fn step_edit_location(&mut self, forwards: bool)
        requires
            old(self).edit_location is Some,
        ensures
            edit_stepped(*old(self), *final(self), forwards),
    {
        let mut e = self.edit_location.take().unwrap();
        e.select(forwards);
        self.edit_location = Some(e);
    }

    /// The down arrow: steps the location being typed to the next
    /// completion when one is being typed, else moves the selection one row
    /// down (see [`item_down_spec`]).
    pub fn item_down(&mut self, shift_held: bool)
        requires
            pos_bounded(positions_of(*old(self))),
        ensures
            old(self).edit_location is Some ==> edit_stepped(*old(self), *final(self), true),
            old(self).edit_location is None ==> same_but_selection(*old(self), *final(self)) && sel_of(*final(self))
                == item_down_spec(
                sel_of(*old(self)),
                positions_of(*old(self)),
                shift_held && crate::tab::spec_multiple(old(self).mode),
            ),
    {
        if self.edit_location.is_some() {
            self.step_edit_location(true);
            return;
        }
        let ghost t0 = *self;
        let ghost pos = positions_of(*self);
        let mod_shift = shift_held && self.mode.multiple();
        let start = match self.focus_pos() {
            Some(p) => Some(p),
            None => self.selected_pos(false),
        };
        proof {
            lemma_first_pos_from_items(sel_of(t0).flags, pos, pos.len());
        }
        match start {
            Some((row, col)) => {
                assert(row < usize::MAX);
                if self.select_focus.is_none() {
                    self.select_position(row, col, mod_shift);
                }
                let ghost t1 = *self;
                let found = self.select_position(row + 1, col, mod_shift);
                proof {
                    lemma_same_but_selection_trans(t0, t1, *self);
                }
                if !found {
                    let ghost t2 = *self;
                    self.select_position(row, col, mod_shift);
                    proof {
                        lemma_same_but_selection_trans(t0, t2, *self);
                    }
                }
            },
            None => {
                self.select_position(0, 0, mod_shift);
            },
        }
    }

    /// The up arrow: steps the location being typed to the previous
    /// completion when one is being typed, else moves the selection one row
    /// up (see [`item_up_spec`]).
    pub fn item_up(&mut self, shift_held: bool)
        ensures
            old(self).edit_location is Some ==> edit_stepped(*old(self), *final(self), false),
            old(self).edit_location is None ==> same_but_selection(*old(self), *final(self)) && sel_of(*final(self))
                == item_up_spec(
                sel_of(*old(self)),
                positions_of(*old(self)),
                shift_held && crate::tab::spec_multiple(old(self).mode),
            ),
    {
        if self.edit_location.is_some() {
            self.step_edit_location(false);
            return;
        }
        let ghost t0 = *self;
        let mod_shift = shift_held && self.mode.multiple();
        let start = match self.focus_pos() {
            Some(p) => Some(p),
            None => self.selected_pos(true),
        };
        match start {
            Some((row, col)) => {
                if self.select_focus.is_none() {
                    self.select_position(row, col, mod_shift);
                }
                let ghost t1 = *self;
                let found = if row >= 1 {
                    self.select_position(row - 1, col, mod_shift)
                } else {
                    false
                };
                proof {
                    lemma_same_but_selection_trans(t0, t1, *self);
                }
                if !found {
                    let ghost t2 = *self;
                    self.select_position(row, col, mod_shift);
                    proof {
                        lemma_same_but_selection_trans(t0, t2, *self);
                    }
                }
            },
            None => {
                self.select_position(0, 0, mod_shift);
            },
        }
    }

    /// The left arrow: moves the selection to the previous item of the row,
    /// or the last item of the row above (see [`item_left_spec`]).
    pub fn item_left(&mut self, shift_held: bool)
        ensures
            same_but_selection(*old(self), *final(self)),
            sel_of(*final(self)) == item_left_spec(
                sel_of(*old(self)),
                positions_of(*old(self)),
                shift_held && crate::tab::spec_multiple(old(self).mode),
            ),
    {
        let ghost t0 = *self;
        let mod_shift = shift_held && self.mode.multiple();
        let start = match self.focus_pos() {
            Some(p) => Some(p),
            None => self.selected_pos(true),
        };
        match start {
            Some((row, col)) => {
                if self.select_focus.is_none() {
                    self.select_position(row, col, mod_shift);
                }
                let ghost t1 = *self;
                let found_left = if col >= 1 {
                    self.select_position(row, col - 1, mod_shift)
                } else {
                    false
                };
                proof {
                    lemma_same_but_selection_trans(t0, t1, *self);
                }
                if !found_left {
                    let ghost t2 = *self;
                    let found_up = if row >= 1 {
                        let c = self.max_col_in(row - 1);
                        self.select_position(row - 1, c, mod_shift)
                    } else {
                        false
                    };
                    proof {
                        lemma_same_but_selection_trans(t0, t2, *self);
                    }
                    if !found_up {
                        let ghost t3 = *self;
                        self.select_position(row, col, mod_shift);
                        proof {
                            lemma_same_but_selection_trans(t0, t3, *self);
                        }
                    }
                }
            },
            None => {
                self.select_position(0, 0, mod_shift);
            },
        }
    }

    /// The right arrow: moves the selection to the next item of the row, or
    /// the first item of the next row (see [`item_right_spec`]).
    pub fn item_right(&mut self, shift_held: bool)
        requires
            pos_bounded(positions_of(*old(self))),
        ensures
            same_but_selection(*old(self), *final(self)),
            sel_of(*final(self)) == item_right_spec(
                sel_of(*old(self)),
                positions_of(*old(self)),
                shift_held && crate::tab::spec_multiple(old(self).mode),
            ),
    {
        let ghost t0 = *self;
        let ghost pos = positions_of(*self);
        let mod_shift = shift_held && self.mode.multiple();
        let start = match self.focus_pos() {
            Some(p) => Some(p),
            None => self.selected_pos(false),
        };
        proof {
            lemma_first_pos_from_items(sel_of(t0).flags, pos, pos.len());
        }
        match start {
            Some((row, col)) => {
                assert(row < usize::MAX && col < usize::MAX);
                if self.select_focus.is_none() {
                    self.select_position(row, col, mod_shift);
                }
                let ghost t1 = *self;
                let found_right = self.select_position(row, col + 1, mod_shift);
                proof {
                    lemma_same_but_selection_trans(t0, t1, *self);
                }
                if !found_right {
                    let ghost t2 = *self;
                    let found_down = self.select_position(row + 1, 0, mod_shift);
                    proof {
                        lemma_same_but_selection_trans(t0, t2, *self);
                    }
                    if !found_down {
                        let ghost t3 = *self;
                        self.select_position(row, col, mod_shift);
                        proof {
                            lemma_same_but_selection_trans(t0, t3, *self);
                        }
                    }
                }
            },
            None => {
                self.select_position(0, 0, mod_shift);
            },
        }
    }
}

/// The positions in `order` of the lower and upper end of a shift range
/// (an end that is missing counts as the start, respectively the end, of
/// the order), lowest first.
pub open spec fn order_bounds(ord: Seq<usize>, mn: usize, mx: usize) -> (int, int) {
    let a = match ord.index_of_first(mn) {
        Some(j) => j,
        None => 0,
    };
    let b = match ord.index_of_first(mx) {
        Some(j) => j,
        None => ord.len() as int,
    };
    if a <= b {
        (a, b)
    } else {
        (b, a)
    }
}

/// Whether item `k` lies in the shift range from item `mn` to item `mx`:
/// between them by index when the items are shown in their own order, else
/// between them in the order in which they are shown.
pub open spec fn in_shift_span(order: Option<Seq<usize>>, mn: usize, mx: usize, k: int) -> bool {
    match order {
        None => mn <= k <= mx,
        Some(ord) => {
            let b = order_bounds(ord, mn, mx);
            exists|j: int| b.0 <= j <= b.1 && 0 <= j < ord.len() && ord[j] == k
        },
    }
}

/// Whether a click on a file in a dialog that chooses folders leaves it
/// unselected.
pub open spec fn dialog_skips(mode: Mode, it: Item) -> bool {
    mode matches Mode::Dialog(d) && !it.is_dir && (d is OpenFolder || d is OpenMultipleFolders)
}

/// Whether a plain click keeps the other items selected: with control held,
/// or when the clicked item is already selected.
pub open spec fn keeps_others(items: Seq<Item>, click: Option<usize>, mod_ctrl: bool) -> bool {
    mod_ctrl || (click matches Some(c) && c < items.len() && items[c as int].selected)
}

/// The selection of item `i` after a plain click.
pub open spec fn clicked_selection(items: Seq<Item>, mode: Mode, click: Option<usize>, mod_ctrl: bool, i: int) -> bool {
    if click == Some(i as usize) {
        if dialog_skips(mode, items[i]) {
            items[i].selected
        } else {
            true
        }
    } else if !keeps_others(items, click, mod_ctrl) && items[i].selected {
        false
    } else {
        items[i].selected
    }
}

/// Whether a plain click changes the selection of item `i`.
pub open spec fn click_touches(items: Seq<Item>, mode: Mode, click: Option<usize>, mod_ctrl: bool, i: int) -> bool {
    clicked_selection(items, mode, click, mod_ctrl, i) != items[i].selected
}

/// Whether a plain click lands on an item that it may select.
pub open spec fn click_hits(items: Seq<Item>, mode: Mode, click: Option<usize>) -> bool {
    click matches Some(c) && c < items.len() && !dialog_skips(mode, items[c as int])
}

/// What a click opens with single-click opening: the folder to go to, or
/// the path of the file to open.
pub open spec fn click_opens(items: Seq<Item>, click: Option<usize>, mod_ctrl: bool, single_click: bool) -> (
    Option<Location>,
    Option<Seq<char>>,
) {
    match click {
        Some(c) => if c < items.len() && !mod_ctrl && single_click {
            match items[c as int].location_opt {
                Some(l) => if items[c as int].is_dir {
                    (Some(l), None)
                } else {
                    (None, spec_path_opt(l))
                },
                None => (None, None),
            }
        } else {
            (None, None)
        },
        None => (None, None),
    }
}

proof fn lemma_span_bounds(o: Seq<usize>, mn: usize, mx: usize, lo: int, hi: int, k: int)
    requires
        order_bounds(o, mn, mx) == (lo, hi),
    ensures
        in_shift_span(Some(o), mn, mx, k) == exists|x: int| lo <= x <= hi && 0 <= x < o.len() && o[x] == k,
{
}

/// Selects the items in the shift range from `mn` to `mx`, keeping the rest
/// as they were.
fn select_span(items: &mut Vec<Item>, mn: usize, mx: usize, order: Option<&Vec<usize>>)
    ensures
        only_selection_changed(old(items)@, final(items)@),
        forall|k: int|
            0 <= k < final(items)@.len() ==> #[trigger] final(items)@[k].selected == (old(items)@[k].selected
                || in_shift_span(
                match order {
                    Some(o) => Some(o@),
                    None => None,
                },
                mn,
                mx,
                k,
            )),
{
    let ghost before = items@;
    match order {
        None => {
            let mut k: usize = mn;
            while k <= mx && k < items.len()
                invariant
                    mn <= k,
                    items@.len() == before.len(),
                    only_selection_changed(before, items@),
                    k == mn || k <= mx + 1,
                    forall|j: int|
                        0 <= j < items@.len() ==> #[trigger] items@[j].selected == (before[j].selected || (mn <= j
                            < k)),
                decreases items@.len() - k,
            {
                set_selected(items, k, true);
                k = k + 1;
            }
        },
        Some(ord) => {
            let ghost o = ord@;
            let mut a: usize = 0;
            let mut found_a = false;
            let mut b: usize = ord.len();
            let mut found_b = false;
            let mut j: usize = 0;
            while j < ord.len()
                invariant
                    j <= o.len(),
                    o == ord@,
                    found_a ==> a < j && o[a as int] == mn && forall|x: int| 0 <= x < a ==> o[x] != mn,
                    !found_a ==> a == 0 && forall|x: int| 0 <= x < j ==> o[x] != mn,
                    found_b ==> b < j && o[b as int] == mx && forall|x: int| 0 <= x < b ==> o[x] != mx,
                    !found_b ==> b == o.len() && forall|x: int| 0 <= x < j ==> o[x] != mx,
                decreases o.len() - j,
            {
                if !found_a && ord[j] == mn {
                    a = j;
                    found_a = true;
                }
                if !found_b && ord[j] == mx {
                    b = j;
                    found_b = true;
                }
                j = j + 1;
            }
            proof {
                o.index_of_first_ensures(mn);
                o.index_of_first_ensures(mx);
                if found_a {
                    assert(o.contains(mn));
                    match o.index_of_first(mn) {
                        Some(x) => {
                            if x < a {
                                assert(o[x] != mn);
                            }
                            if a < x {
                                assert(o[a as int] != mn);
                            }
                        },
                        None => {},
                    }
                } else {
                    assert(!o.contains(mn));
                }
                if found_b {
                    assert(o.contains(mx));
                    match o.index_of_first(mx) {
                        Some(x) => {
                            if x < b {
                                assert(o[x] != mx);
                            }
                            if b < x {
                                assert(o[b as int] != mx);
                            }
                        },
                        None => {},
                    }
                } else {
                    assert(!o.contains(mx));
                }
            }
            let lo = if a <= b {
                a
            } else {
                b
            };
            let hi = if a <= b {
                b
            } else {
                a
            };
            assert((lo as int, hi as int) == order_bounds(o, mn, mx));
            let mut j: usize = lo;
            while j <= hi && j < ord.len()
                invariant
                    lo <= j,
                    j <= hi + 1,
                    o == ord@,
                    items@.len() == before.len(),
                    only_selection_changed(before, items@),
                    forall|k: int|
                        0 <= k < items@.len() ==> #[trigger] items@[k].selected == (before[k].selected || exists|x: int|
                            lo <= x < j && 0 <= x < o.len() && o[x] == k),
                decreases o.len() - j,
            {
                let idx = ord[j];
                if idx < items.len() {
                    set_selected(items, idx, true);
                }
                proof {
                    assert forall|k: int| 0 <= k < items@.len() implies #[trigger] items@[k].selected == (
                    before[k].selected || exists|x: int| lo <= x < j + 1 && 0 <= x < o.len() && o[x] == k) by {
                        if k == idx {
                            assert(o[j as int] == k);
                        } else {
                            if exists|x: int| lo <= x < j + 1 && 0 <= x < o.len() && o[x] == k {
                                let x = choose|x: int| lo <= x < j + 1 && 0 <= x < o.len() && o[x] == k;
                                assert(x != j);
                            }
                        }
                    }
                }
                j = j + 1;
            }
            proof {
                let ob = order_bounds(o, mn, mx);
                assert(ob.0 == lo && ob.1 == hi);
                assert forall|k: int| 0 <= k < items@.len() implies #[trigger] items@[k].selected == (
                before[k].selected || in_shift_span(Some(o), mn, mx, k)) by {
                    if exists|x: int| lo <= x <= hi && 0 <= x < o.len() && o[x] == k {
                        let x = choose|x: int| lo <= x <= hi && 0 <= x < o.len() && o[x] == k;
                        assert(lo <= x < j);
                    }
                    if exists|x: int| lo <= x < j && 0 <= x < o.len() && o[x] == k {
                        let x = choose|x: int| lo <= x < j && 0 <= x < o.len() && o[x] == k;
                        assert(lo <= x <= hi);
                    }
                    lemma_span_bounds(o, mn, mx, lo as int, hi as int, k);
                }
            }
        },
    }
}

/// The tab frame kept by a click: all but the selection, focus, range,
/// press state and the location being typed, which is dropped.
pub open spec fn click_frame(o: Tab, n: Tab) -> bool {
    &&& n.location == o.location
    &&& n.history == o.history
    &&& n.history_i == o.history_i
    &&& n.edit_location is None
    &&& n.mode == o.mode
    &&& n.show_hidden == o.show_hidden
    &&& n.sort_name == o.sort_name
    &&& n.sort_direction == o.sort_direction
    &&& (o.items_opt is Some <==> n.items_opt is Some)
    &&& only_selection_changed(items_of(o), items_of(n))
}

/// The shift range after a shift click on `c`.
pub open spec fn shift_click_range(o: Tab, c: usize) -> (usize, usize) {
    match o.select_range {
        Some(q) => (q.0, c),
        None => (c, c),
    }
}

/// `n` is `o` after a shift click on `click` (see [`Tab::click`]).
pub open spec fn shift_clicked(o: Tab, n: Tab, click: Option<usize>, order: Option<Seq<usize>>) -> bool {
    match click {
        None => {
            &&& n.clicked is None
            &&& !n.selected_clicked
            &&& n.select_focus == o.select_focus
            &&& n.select_range == o.select_range
            &&& items_of(n) == items_of(o)
        },
        Some(c) => {
            let range = shift_click_range(o, c);
            let mn = if range.0 <= range.1 {
                range.0
            } else {
                range.1
            };
            let mx = if range.0 <= range.1 {
                range.1
            } else {
                range.0
            };
            &&& n.select_range == Some(range)
            &&& n.clicked == click
            &&& n.select_focus == click
            &&& n.selected_clicked
            &&& forall|k: int|
                0 <= k < items_of(o).len() ==> #[trigger] items_of(n)[k].selected == (items_of(o)[k].selected
                    || in_shift_span(order, mn, mx, k))
        },
    }
}

/// `n` is `o` after a plain click on `click` (see [`Tab::click`]).
pub open spec fn plain_clicked(o: Tab, n: Tab, click: Option<usize>, mod_ctrl: bool) -> bool {
    let items = items_of(o);
    let touched = exists|i: int| 0 <= i < items.len() && click_touches(items, o.mode, click, mod_ctrl, i);
    let hits = click_hits(items, o.mode, click);
    &&& forall|i: int|
        0 <= i < items.len() ==> #[trigger] items_of(n)[i].selected == clicked_selection(
            items,
            o.mode,
            click,
            mod_ctrl,
            i,
        )
    &&& n.clicked == if click is None || touched {
        click
    } else {
        o.clicked
    }
    &&& n.selected_clicked == hits
    &&& n.select_range == if hits {
        Some((click->0, click->0))
    } else {
        o.select_range
    }
    &&& n.select_focus == if hits {
        click
    } else {
        o.select_focus
    }
}

/// Whether `r` is what a plain click opens: the folder to go to and the
/// file path (or nothing).
pub open spec fn opens_as(r: (Option<Location>, Vec<String>), opens: (Option<Location>, Option<Seq<char>>)) -> bool {
    &&& r.0 == opens.0
    &&& match opens.1 {
        Some(p) => r.1@.len() == 1 && r.1@[0]@ == p,
        None => r.1@.len() == 0,
    }
}

/// The shown order as a sequence, if given.
pub open spec fn order_view(order: Option<&Vec<usize>>) -> Option<Seq<usize>> {
    match order {
        Some(v) => Some(v@),
        None => None,
    }
}

/// Whether `t1` is `t0` after a press on `click_i_opt` (see [`Tab::click`]).
pub open spec fn pressed(
    t0: Tab,
    t1: Tab,
    click_i_opt: Option<usize>,
    ctrl_held: bool,
    shift_held: bool,
    order: Option<Seq<usize>>,
) -> bool {
    &&& click_frame(t0, t1)
    &&& shift_held && crate::tab::spec_multiple(t0.mode) ==> shift_clicked(t0, t1, click_i_opt, order)
    &&& !(shift_held && crate::tab::spec_multiple(t0.mode)) ==> plain_clicked(
        t0,
        t1,
        click_i_opt,
        ctrl_held && crate::tab::spec_multiple(t0.mode),
    )
}

/// Whether `t2` is `t1` after the selection step of a secondary click on
/// `click_i_opt`: unless the item is selected, it becomes the only selected
/// item; nothing else changes.
pub open spec fn secondary_selected(t1: Tab, t2: Tab, click_i_opt: Option<usize>) -> bool {
    let items = items_of(t1);
    let keep = click_i_opt matches Some(c) && c < items.len() && items[c as int].selected;
    &&& t2.location == t1.location
    &&& t2.history == t1.history
    &&& t2.history_i == t1.history_i
    &&& t2.mode == t1.mode
    &&& (t1.items_opt is Some <==> t2.items_opt is Some)
    &&& only_selection_changed(items, items_of(t2))
    &&& forall|i: int|
        0 <= i < items.len() ==> #[trigger] items_of(t2)[i].selected == if keep {
            items[i].selected
        } else {
            click_i_opt == Some(i as usize)
        }
    &&& t2.select_focus == t1.select_focus
    &&& t2.select_range == t1.select_range
    &&& t2.clicked == t1.clicked
    &&& t2.edit_location == t1.edit_location
}

impl Tab {
    fn shift_click(&mut self, click_i_opt: Option<usize>, order: Option<&Vec<usize>>)
        ensures
            click_frame(*old(self), *final(self)),
            shift_clicked(*old(self), *final(self), click_i_opt, order_view(order)),
    {
        let ghost items0 = items_of(*self);
        self.selected_clicked = false;
        self.edit_location = None;
        match click_i_opt {
            None => {
                self.clicked = None;
            },
            Some(c) => {
                let range = match self.select_range {
                    Some(q) => (q.0, c),
                    None => (c, c),
                };
                self.select_range = Some(range);
                let mn = if range.0 <= range.1 {
                    range.0
                } else {
                    range.1
                };
                let mx = if range.0 <= range.1 {
                    range.1
                } else {
                    range.0
                };
                let taken = self.take_items();
                match taken {
                    None => {},
                    Some(mut items) => {
                        select_span(&mut items, mn, mx, order);
                        self.items_opt = Some(items);
                    },
                }
                self.clicked = click_i_opt;
                self.select_focus = click_i_opt;
                self.selected_clicked = true;
            },
        }
    }

    fn plain_click(&mut self, click_i_opt: Option<usize>, mod_ctrl: bool, single_click: bool) -> (r: (
        Option<Location>,
        Vec<String>,
    ))
        ensures
            click_frame(*old(self), *final(self)),
            plain_clicked(*old(self), *final(self), click_i_opt, mod_ctrl),
            opens_as(r, click_opens(items_of(*old(self)), click_i_opt, mod_ctrl, single_click)),
    {
        let ghost o = *self;
        let ghost items0 = items_of(*self);
        self.selected_clicked = false;
        self.edit_location = None;
        if click_i_opt.is_none() {
            self.clicked = None;
        }
        let mut cd: Option<Location> = None;
        let mut open: Vec<String> = Vec::new();
        let keep = mod_ctrl || match (&self.items_opt, click_i_opt) {
            (Some(items), Some(c)) => c < items.len() && items[c].selected,
            _ => false,
        };
        assert(keep == keeps_others(items0, click_i_opt, mod_ctrl));
        let taken = self.take_items();
        match taken {
            None => {},
            Some(mut items) => {
                let mut touched = false;
                let mut hit = false;
                let mut i: usize = 0;
                while i < items.len()
                    invariant
                        i <= items@.len(),
                        items@.len() == items0.len(),
                        only_selection_changed(items0, items@),
                        forall|k: int| i <= k < items@.len() ==> #[trigger] items@[k] == items0[k],
                        forall|k: int|
                            0 <= k < i ==> #[trigger] items@[k].selected == clicked_selection(
                                items0,
                                self.mode,
                                click_i_opt,
                                mod_ctrl,
                                k,
                            ),
                        touched == exists|k: int| 0 <= k < i && click_touches(items0, self.mode, click_i_opt, mod_ctrl, k),
                        hit == (click_i_opt matches Some(c) && c < i && !dialog_skips(self.mode, items0[c as int])),
                        keep == keeps_others(items0, click_i_opt, mod_ctrl),
                        self.mode == o.mode,
                        cd == (if click_i_opt matches Some(c) && c < i {
                            click_opens(items0, click_i_opt, mod_ctrl, single_click).0
                        } else {
                            None
                        }),
                        match (if click_i_opt matches Some(c) && c < i {
                            click_opens(items0, click_i_opt, mod_ctrl, single_click).1
                        } else {
                            None
                        }) {
                            Some(p) => open@.len() == 1 && open@[0]@ == p,
                            None => open@.len() == 0,
                        },
                    decreases items@.len() - i,
                {
                    let ghost it = items0[i as int];
                    assert(items@[i as int] == it);
                    let is_click = match click_i_opt {
                        Some(c) => c == i,
                        None => false,
                    };
                    if is_click {
                        if !mod_ctrl && single_click {
                            match &items[i].location_opt {
                                Some(location) => {
                                    if items[i].is_dir {
                                        cd = Some(location.duplicate());
                                    } else {
                                        match location.path_opt() {
                                            Some(path) => open.push(path.clone()),
                                            None => {},
                                        }
                                    }
                                },
                                None => {},
                            }
                        }
                        let skip = match &self.mode {
                            Mode::Dialog(d) => !items[i].is_dir && d.is_dir(),
                            _ => false,
                        };
                        assert(skip == dialog_skips(self.mode, it));
                        if !skip {
                            if !items[i].selected {
                                touched = true;
                                set_selected(&mut items, i, true);
                                assert(click_touches(items0, self.mode, click_i_opt, mod_ctrl, i as int));
                            }
                            hit = true;
                        }
                    } else if !keep && items[i].selected {
                        touched = true;
                        set_selected(&mut items, i, false);
                        assert(click_touches(items0, self.mode, click_i_opt, mod_ctrl, i as int));
                    }
                    proof {
                        if !click_touches(items0, self.mode, click_i_opt, mod_ctrl, i as int) {
                            assert(touched == exists|k: int|
                                0 <= k < i + 1 && click_touches(items0, self.mode, click_i_opt, mod_ctrl, k));
                        }
                    }
                    i = i + 1;
                }
                if touched {
                    self.clicked = click_i_opt;
                }
                if hit {
                    let c = click_i_opt.unwrap();
                    self.select_range = Some((c, c));
                    self.select_focus = click_i_opt;
                    self.selected_clicked = true;
                }
                self.items_opt = Some(items);
            },
        }
        (cd, open)
    }

    /// A press on item `click_i_opt` (or on empty space). With shift (when
    /// the mode allows several items) it extends the range to the item and
    /// selects the range, by index when `order` is `None` (the items are
    /// shown in their own order), else in the shown `order`. Otherwise it
    /// selects the item and deselects the others, unless control is held or
    /// the item was selected already; with single-click opening it returns
    /// the folder to go to or the file to open.
    pub fn click(
        &mut self,
        click_i_opt: Option<usize>,
        ctrl_held: bool,
        shift_held: bool,
        single_click: bool,
        order: Option<&Vec<usize>>,
    ) -> (r: (Option<Location>, Vec<String>))
        ensures
            click_frame(*old(self), *final(self)),
            pressed(*old(self), *final(self), click_i_opt, ctrl_held, shift_held, order_view(order)),
            shift_held && crate::tab::spec_multiple(old(self).mode) ==> {
                &&& shift_clicked(*old(self), *final(self), click_i_opt, order_view(order))
                &&& r.0 is None
                &&& r.1@.len() == 0
            },
            !(shift_held && crate::tab::spec_multiple(old(self).mode)) ==> {
                let mod_ctrl = ctrl_held && crate::tab::spec_multiple(old(self).mode);
                &&& plain_clicked(*old(self), *final(self), click_i_opt, mod_ctrl)
                &&& opens_as(r, click_opens(items_of(*old(self)), click_i_opt, mod_ctrl, single_click))
            },
    {
        let mod_ctrl = ctrl_held && self.mode.multiple();
        let mod_shift = shift_held && self.mode.multiple();
        if mod_shift {
            self.shift_click(click_i_opt, order);
            (None, Vec::new())
        } else {
            self.plain_click(click_i_opt, mod_ctrl, single_click)
        }
    }
}

/// Which item paths a selection opens: the paths of the selected items that
/// are not folders, in order.
pub open spec fn selected_files(s: Seq<Item>) -> Seq<Seq<char>>
    decreases s.len(),
{
    if s.len() == 0 {
        seq![]
    } else {
        let rest = selected_files(s.drop_last());
        let it = s.last();
        if it.selected && !it.is_dir && item_path(it) is Some {
            rest.push(item_path(it)->0)
        } else {
            rest
        }
    }
}

/// The location of the last selected folder, if any.
pub open spec fn last_selected_dir(s: Seq<Item>) -> Option<Location>
    decreases s.len(),
{
    if s.len() == 0 {
        None
    } else {
        let it = s.last();
        if it.selected && it.is_dir && it.location_opt is Some {
            it.location_opt
        } else {
            last_selected_dir(s.drop_last())
        }
    }
}

/// What a tab does when asked to go to a location.
#[derive(Debug)]
pub enum Navigation {
    /// On the desktop: open the file or folder at the path.
    OpenFile(String),
    /// On the desktop: open the trash.
    OpenTrash,
    /// The tab went to the location; the paths are to be selected there.
    Changed(Location, Option<Vec<String>>),
    /// The target is not a folder; nothing happens.
    NotDirectory,
    /// Nothing to do.
    Stay,
}

/// The paths, if any, as text.
pub open spec fn paths_view(p: Option<Vec<String>>) -> Option<Seq<Seq<char>>> {
    match p {
        Some(v) => Some(v@.map_values(|s: String| s@)),
        None => None,
    }
}

impl Tab {
    /// The release of a press on `click_i_opt`. If it is the item that was
    /// pressed, nothing but the press state changes. Otherwise, with control
    /// the released item is deselected (and the range dropped if it was
    /// selected), and without control every other item is deselected.
    pub fn click_release(&mut self, click_i_opt: Option<usize>, ctrl_held: bool)
        ensures
            ({
                let o = *old(self);
                let n = *final(self);
                let items = items_of(o);
                let mod_ctrl = ctrl_held && crate::tab::spec_multiple(o.mode);
                &&& n.clicked is None
                &&& n.location == o.location
                &&& n.history == o.history
                &&& n.history_i == o.history_i
                &&& n.edit_location == o.edit_location
                &&& n.mode == o.mode
                &&& n.select_focus == o.select_focus
                &&& n.selected_clicked == o.selected_clicked
                &&& (o.items_opt is Some <==> n.items_opt is Some)
                &&& only_selection_changed(items, items_of(n))
                &&& if click_i_opt == o.clicked {
                    &&& items_of(n) == items
                    &&& n.select_range == o.select_range
                } else {
                    &&& forall|i: int|
                        0 <= i < items.len() ==> #[trigger] items_of(n)[i].selected == if mod_ctrl {
                            if click_i_opt == Some(i as usize) {
                                false
                            } else {
                                items[i].selected
                            }
                        } else {
                            click_i_opt == Some(i as usize) && items[i].selected
                        }
                    &&& n.select_range == if mod_ctrl && (click_i_opt matches Some(c) && c < items.len()
                        && items[c as int].selected) {
                        None
                    } else {
                        o.select_range
                    }
                }
            }),
    {
        let ghost items0 = items_of(*self);
        let mod_ctrl = ctrl_held && self.mode.multiple();
        let was = self.clicked.take();
        if click_i_opt == was {
            return;
        }
        let taken = self.take_items();
        match taken {
            None => {},
            Some(mut items) => {
                let mut drop_range = false;
                let mut i: usize = 0;
                while i < items.len()
                    invariant
                        i <= items@.len(),
                        items@.len() == items0.len(),
                        only_selection_changed(items0, items@),
                        forall|k: int| i <= k < items@.len() ==> #[trigger] items@[k] == items0[k],
                        forall|k: int|
                            0 <= k < i ==> #[trigger] items@[k].selected == if mod_ctrl {
                                if click_i_opt == Some(k as usize) {
                                    false
                                } else {
                                    items0[k].selected
                                }
                            } else {
                                click_i_opt == Some(k as usize) && items0[k].selected
                            },
                        drop_range == (mod_ctrl && (click_i_opt matches Some(c) && c < i && items0[c as int].selected)),
                    decreases items@.len() - i,
                {
                    let is_click = match click_i_opt {
                        Some(c) => c == i,
                        None => false,
                    };
                    if mod_ctrl {
                        if is_click && items[i].selected {
                            set_selected(&mut items, i, false);
                            drop_range = true;
                        }
                    } else if !is_click {
                        set_selected(&mut items, i, false);
                    }
                    i = i + 1;
                }
                if drop_range {
                    self.select_range = None;
                }
                self.items_opt = Some(items);
            },
        }
    }

    /// A double click on `click_i_opt`: the folder to go to, or the file to
    /// open.
    pub fn double_click(&self, click_i_opt: Option<usize>) -> (r: (Option<Location>, Vec<String>))
        ensures
            opens_as(r, click_opens(items_of(*self), click_i_opt, false, true)),
    {
        let mut open: Vec<String> = Vec::new();
        let items = match &self.items_opt {
            Some(items) => items,
            None => return (None, open),
        };
        let c = match click_i_opt {
            Some(c) => c,
            None => return (None, open),
        };
        if c >= items.len() {
            return (None, open);
        }
        match &items[c].location_opt {
            Some(location) => {
                if items[c].is_dir {
                    return (Some(location.duplicate()), open);
                }
                match location.path_opt() {
                    Some(path) => open.push(path.clone()),
                    None => {},
                }
                (None, open)
            },
            None => (None, open),
        }
    }

    /// Opening the selection: the last selected folder to go to, and the
    /// paths of the selected files to open (nothing when the items are not
    /// read yet).
    pub fn open_selected(&self) -> (r: (Option<Location>, Option<Vec<String>>))
        ensures
            self.items_opt is None ==> r.0 is None && r.1 is None,
            self.items_opt is Some ==> r.0 == last_selected_dir(items_of(*self)) && paths_view(r.1) == Some(
                selected_files(items_of(*self)),
            ),
    {
        let items = match &self.items_opt {
            Some(items) => items,
            None => return (None, None),
        };
        let mut cd: Option<Location> = None;
        let mut files: Vec<String> = Vec::new();
        let mut i: usize = 0;
        while i < items.len()
            invariant
                i <= items@.len(),
                items@ == items_of(*self),
                cd == last_selected_dir(items@.take(i as int)),
                files@.map_values(|s: String| s@) == selected_files(items@.take(i as int)),
            decreases items@.len() - i,
        {
            assert(items@.take(i as int + 1).drop_last() =~= items@.take(i as int));
            assert(items@.take(i as int + 1).last() == items@[i as int]);
            let it = &items[i];
            if it.selected {
                match &it.location_opt {
                    Some(location) => {
                        if it.is_dir {
                            cd = Some(location.duplicate());
                        } else {
                            match location.path_opt() {
                                Some(path) => {
                                    let ghost before = files@;
                                    files.push(path.clone());
                                    assert(files@.map_values(|s: String| s@) =~= before.map_values(|s: String| s@).push(
                                        path@,
                                    ));
                                },
                                None => {},
                            }
                        }
                    },
                    None => {},
                }
            }
            i = i + 1;
        }
        assert(items@.take(i as int) =~= items@);
        (cd, Some(files))
    }

    /// Going up: the parent folder of a path location, if it has one; it is
    /// never the same place as the location (it has one component less).
    pub fn location_up(&self) -> (r: Option<Location>)
        ensures
            match self.location {
                Location::Path(p) => match path_parent(p@) {
                    Some(q) => r matches Some(Location::Path(s)) && s@ == q,
                    None => r is None,
                },
                _ => r is None,
            },
            r matches Some(l) ==> !loc_eq(l, self.location),
    {
        match &self.location {
            Location::Path(p) => match parent(p.as_str()) {
                Some(q) => Some(Location::Path(q)),
                None => None,
            },
            _ => None,
        }
    }

    /// A secondary click on `click_i_opt`: with control or shift it first
    /// acts as a press (see [`Tab::click`]); then, unless the item is
    /// selected, it becomes the only selected item.
    pub fn right_click(
        &mut self,
        click_i_opt: Option<usize>,
        ctrl_held: bool,
        shift_held: bool,
        single_click: bool,
        order: Option<&Vec<usize>>,
    )
        ensures
            final(self).location == old(self).location,
            final(self).history == old(self).history,
            final(self).history_i == old(self).history_i,
            final(self).mode == old(self).mode,
            (old(self).items_opt is Some <==> final(self).items_opt is Some),
            only_selection_changed(items_of(*old(self)), items_of(*final(self))),
            !((ctrl_held || shift_held) && crate::tab::spec_multiple(old(self).mode)) ==> secondary_selected(
                *old(self),
                *final(self),
                click_i_opt,
            ),
            (ctrl_held || shift_held) && crate::tab::spec_multiple(old(self).mode) ==> exists|t1: Tab|
                pressed(*old(self), t1, click_i_opt, ctrl_held, shift_held, order_view(order))
                    && #[trigger] secondary_selected(t1, *final(self), click_i_opt),
    {
        let mod_ctrl = ctrl_held && self.mode.multiple();
        let mod_shift = shift_held && self.mode.multiple();
        if mod_ctrl || mod_shift {
            let _ = self.click(click_i_opt, ctrl_held, shift_held, single_click, order);
        }
        let ghost t1 = *self;
        let ghost items0 = items_of(*self);
        let keep = match (&self.items_opt, click_i_opt) {
            (Some(items), Some(c)) => c < items.len() && items[c].selected,
            _ => false,
        };
        if !keep {
            let taken = self.take_items();
            match taken {
                None => {},
                Some(mut items) => {
                    let mut i: usize = 0;
                    while i < items.len()
                        invariant
                            i <= items@.len(),
                            items@.len() == items0.len(),
                            only_selection_changed(items0, items@),
                            forall|k: int| 0 <= k < i ==> #[trigger] items@[k].selected == (click_i_opt == Some(k as usize)),
                        decreases items@.len() - i,
                    {
                        let b = match click_i_opt {
                            Some(c) => c == i,
                            None => false,
                        };
                        set_selected(&mut items, i, b);
                        i = i + 1;
                    }
                    self.items_opt = Some(items);
                },
            }
        }
        proof {
            assert(only_selection_changed(items0, items_of(*self)));
            assert(secondary_selected(t1, *self, click_i_opt));
            assert forall|i: int| 0 <= i < items_of(*old(self)).len() implies #[trigger] items_of(*self)[i] == with_selected(
                items_of(*old(self))[i],
                items_of(*self)[i].selected,
            ) by {
                assert(items_of(*self)[i] == with_selected(items0[i], items_of(*self)[i].selected));
                assert(items0[i] == with_selected(items_of(*old(self))[i], items0[i].selected));
            }
        }
    }
}

/// What a request to show a location in a tab leads to.
#[derive(Debug)]
pub enum LocationRequest {
    /// Go to the location.
    GoTo(Location),
    /// Open the file at the path.
    OpenFile(String),
}

/// What a request to show `location` leads to (`path_is_dir` tells whether
/// its path is a folder): a path that is not a folder is opened as a file
/// (so that favourite files open), anything else is gone to.
pub fn location_request(location: Location, path_is_dir: bool) -> (r: LocationRequest)
    ensures
        match location {
            Location::Path(p) => if path_is_dir {
                r == LocationRequest::GoTo(location)
            } else {
                r matches LocationRequest::OpenFile(q) && q@ == p@
            },
            _ => r == LocationRequest::GoTo(location),
        },
{
    match location {
        Location::Path(p) => if path_is_dir {
            LocationRequest::GoTo(Location::Path(p))
        } else {
            LocationRequest::OpenFile(p)
        },
        other => LocationRequest::GoTo(other),
    }
}

/// On the desktop, going to a location opens it instead: a path is opened
/// as a file, the trash as the trash, and nothing else happens.
pub fn navigate_desktop(location: &Location) -> (r: Navigation)
    ensures
        match *location {
            Location::Path(p) => r matches Navigation::OpenFile(q) && q@ == p@,
            Location::Trash => r is OpenTrash,
            _ => r is Stay,
        },
{
    match location {
        Location::Path(p) => Navigation::OpenFile(p.clone()),
        Location::Trash => Navigation::OpenTrash,
        _ => Navigation::Stay,
    }
}

/// Where going to `location` leads: to its folder, with the file selected,
/// when its path is not a folder (`path_is_dir` says whether it is) and has
/// a parent; else to the location itself.
pub fn cd_target(location: &Location, path_is_dir: bool) -> (r: (Location, Option<Vec<String>>))
    ensures
        match spec_path_opt(*location) {
            Some(p) => if !path_is_dir && path_parent(p) is Some {
                crate::tab::with_path_rel(*location, path_parent(p)->0, r.0) && paths_view(r.1) == Some(seq![p])
            } else {
                r.0 == *location && r.1 is None
            },
            None => r.0 == *location && r.1 is None,
        },
{
    match location.path_opt() {
        Some(path) => {
            if !path_is_dir {
                match parent(path.as_str()) {
                    Some(par) => {
                        let mut sel: Vec<String> = Vec::new();
                        sel.push(path.clone());
                        assert(sel@.map_values(|s: String| s@) =~= seq![path@]);
                        return (location.with_path(par), Some(sel));
                    },
                    None => {},
                }
            }
            (location.duplicate(), None)
        },
        None => (location.duplicate(), None),
    }
}

impl Tab {
    /// Goes to `target` (see [`cd_target`]) when it differs from the current
    /// location or files are to be selected, and it is a folder
    /// (`target_is_dir`, true for a location without a path). When nothing
    /// is to be selected, the folder left is selected in the new location.
    pub fn go_to(
        &mut self,
        target: Location,
        selected: Option<Vec<String>>,
        history_i_opt: Option<usize>,
        target_is_dir: bool,
    ) -> (r: Navigation)
        requires
            history_i_opt is None ==> old(self).history_i < usize::MAX,
        ensures
            if !loc_eq(target, old(self).location) || selected is Some {
                if target_is_dir {
                    &&& location_changed(*old(self), target, history_i_opt, *final(self))
                    &&& loc_eq(final(self).location, target)
                    &&& history_i_opt is None ==> final(self).history@.last() == target
                    &&& r matches Navigation::Changed(l, s) && l == target && paths_view(s) == if selected is Some {
                        paths_view(selected)
                    } else {
                        match spec_path_opt(old(self).location) {
                            Some(p) => Some(seq![p]),
                            None => None,
                        }
                    }
                } else {
                    r is NotDirectory && *final(self) == *old(self)
                }
            } else {
                r is Stay && *final(self) == *old(self)
            },
    {
        if !location_eq(&target, &self.location) || selected.is_some() {
            if target_is_dir {
                let sel = match selected {
                    Some(s) => Some(s),
                    None => match self.location.path_opt() {
                        Some(p) => {
                            let mut v: Vec<String> = Vec::new();
                            v.push(p.clone());
                            assert(v@.map_values(|s: String| s@) =~= seq![p@]);
                            Some(v)
                        },
                        None => None,
                    },
                };
                self.change_location(&target, history_i_opt);
                proof {
                    crate::tab::lemma_normalized_same_place(target, self.location);
                }
                Navigation::Changed(target, sel)
            } else {
                Navigation::NotDirectory
            }
        } else {
            Navigation::Stay
        }
    }
}

proof fn lemma_last_at_found(pos: Seq<Option<Pos>>, target: Pos)
    requires
        pos.len() <= usize::MAX,
    ensures
        last_at(pos, target) matches Some(i) ==> i < pos.len() && pos[i as int] == Some(target),
        last_at(pos, target) is None ==> forall|i: int| 0 <= i < pos.len() ==> pos[i] != Some(target),
    decreases pos.len(),
{
    if pos.len() > 0 {
        lemma_last_at_found(pos.drop_last(), target);
        if let Some(i) = last_at(pos.drop_last(), target) {
            assert(pos.drop_last()[i as int] == pos[i as int]);
        }
        if last_at(pos, target) is None {
            assert forall|i: int| 0 <= i < pos.len() implies pos[i] != Some(target) by {
                if i < pos.len() - 1 {
                    assert(pos.drop_last()[i] == pos[i]);
                }
            }
        }
    }
}

/// Selecting a position without shift selects exactly the items laid out at
/// that position; when there is one, the last of them takes the focus and
/// is the whole range.
pub proof fn lemma_select_position_exact(s: Sel, pos: Seq<Option<Pos>>, row: usize, col: usize)
    requires
        s.has_items,
        pos.len() <= usize::MAX,
    ensures
        ({
            let n = select_position_spec(s, pos, row, col, false);
            &&& n.flags.len() == pos.len()
            &&& forall|i: int| 0 <= i < pos.len() ==> #[trigger] n.flags[i] == (pos[i] == Some((row, col)))
            &&& position_found(s, pos, row, col) ==> (n.focus matches Some(f) && f < pos.len() && pos[f as int]
                == Some((row, col)) && n.range == Some((f, f)))
            &&& !position_found(s, pos, row, col) ==> n.focus == s.focus && n.range == s.range
        }),
{
    lemma_last_at_found(pos, (row, col));
    let n = select_position_spec(s, pos, row, col, false);
    assert forall|i: int| 0 <= i < pos.len() implies #[trigger] n.flags[i] == (pos[i] == Some((row, col))) by {
        match pos[i] {
            Some(q) => {
                if !pos_before(q, (row, col)) && !pos_before((row, col), q) {
                    assert(q == (row, col));
                }
            },
            None => {},
        }
    }
}

/// A plain click (without control) on an unselected item that the tab's
/// mode lets be selected makes it the only selected item.
pub proof fn lemma_plain_click_selects_only(items: Seq<Item>, mode: Mode, c: usize)
    requires
        c < items.len(),
        items.len() <= usize::MAX,
        !items[c as int].selected,
        !dialog_skips(mode, items[c as int]),
    ensures
        forall|i: int| 0 <= i < items.len() ==> #[trigger] clicked_selection(items, mode, Some(c), false, i) == (i
            == c),
{
}

/// The sort of a new tab: the options saved for its location, else the
/// fallback for it (the downloads folder sorts newest first), else by name,
/// ascending.
pub fn initial_sort(saved: Option<(HeadingOptions, bool)>, fallback: Option<(HeadingOptions, bool)>) -> (r: (
    HeadingOptions,
    bool,
))
    ensures
        r == match saved {
            Some(s) => s,
            None => match fallback {
                Some(f) => f,
                None => (HeadingOptions::Name, true),
            },
        },
{
    match saved {
        Some(s) => s,
        None => match fallback {
            Some(f) => f,
            None => (HeadingOptions::Name, true),
        },
    }
}

/// `new` is `old` with the sort set to `name` and `dir`, and nothing else
/// changed.
pub open spec fn sort_changed(old: Tab, new: Tab, name: HeadingOptions, dir: bool) -> bool {
    &&& new.sort_name == name
    &&& new.sort_direction == dir
    &&& new.location == old.location
    &&& new.history == old.history
    &&& new.history_i == old.history_i
    &&& new.items_opt == old.items_opt
    &&& new.select_focus == old.select_focus
    &&& new.select_range == old.select_range
    &&& new.edit_location == old.edit_location
    &&& new.mode == old.mode
    &&& new.show_hidden == old.show_hidden
    &&& new.clicked == old.clicked
    &&& new.selected_clicked == old.selected_clicked
}

impl Tab {
    /// The sort in effect: searches are always newest first, without
    /// folders first; other locations use the tab's sort and the
    /// `folders_first` setting.
    pub fn sort_options(&self, folders_first: bool) -> (r: (HeadingOptions, bool, bool))
        ensures
            r == if self.location is Search {
                (HeadingOptions::Modified, false, false)
            } else {
                (self.sort_name, self.sort_direction, folders_first)
            },
    {
        match &self.location {
            Location::Search(..) => (HeadingOptions::Modified, false, false),
            _ => (self.sort_name, self.sort_direction, folders_first),
        }
    }

    /// The order in which the tab lists its items, given what the sort reads
    /// of each item, one entry per item in the order of the items: each
    /// item's index once, in the sort's order; none before the items are
    /// loaded.
    pub fn column_sort(&self, entries: &Vec<SortEntry>, folders_first: bool) -> (r: Option<Vec<usize>>)
        requires
            self.items_opt matches Some(items) ==> entries@.len() == items@.len(),
        ensures
            self.items_opt is None ==> r is None,
            self.items_opt is Some ==> (r matches Some(v) && sorted_by(
                entries@,
                if self.location is Search {
                    (HeadingOptions::Modified, false, false)
                } else {
                    (self.sort_name, self.sort_direction, folders_first)
                },
                v@,
            )),
    {
        if self.items_opt.is_none() {
            return None;
        }
        let options = self.sort_options(folders_first);
        Some(column_sort(entries, options))
    }

    /// Sorts by `heading` in direction `dir` (not in searches). Returns the
    /// sort to remember for the location, keyed by the normalised location
    /// written out, except on the desktop.
    pub fn set_sort(&mut self, heading: HeadingOptions, dir: bool) -> (r: Option<(String, HeadingOptions, bool)>)
        ensures
            old(self).location is Search ==> *final(self) == *old(self) && r is None,
            !(old(self).location is Search) ==> sort_changed(*old(self), *final(self), heading, dir),
            !(old(self).location is Search) && !(old(self).location is Desktop) ==> (r matches Some(k) && (exists|
                n: Location,
            | normalized(old(self).location, n) && k.0@ == crate::tab::spec_display(n)) && k.1 == heading && k.2
                == dir),
            old(self).location is Desktop ==> r is None,
    {
        if let Location::Search(..) = &self.location {
            return None;
        }
        self.sort_name = heading;
        self.sort_direction = dir;
        if let Location::Desktop(..) = &self.location {
            return None;
        }
        let n = self.location.normalize();
        Some((n.display_text(), heading, dir))
    }

    /// Sorts by `heading` (not in searches): the same column again flips the
    /// direction; another column starts ascending, but modification time
    /// starts newest first. Returns the sort to remember, as [`Tab::set_sort`].
    pub fn toggle_sort(&mut self, heading: HeadingOptions) -> (r: Option<(String, HeadingOptions, bool)>)
        ensures
            old(self).location is Search ==> *final(self) == *old(self) && r is None,
            !(old(self).location is Search) ==> sort_changed(
                *old(self),
                *final(self),
                heading,
                if old(self).sort_name == heading {
                    !old(self).sort_direction
                } else {
                    heading != HeadingOptions::Modified
                },
            ),
            !(old(self).location is Search) && !(old(self).location is Desktop) ==> (r matches Some(k) && (exists|
                n: Location,
            | normalized(old(self).location, n) && k.0@ == crate::tab::spec_display(n)) && k.1 == heading && k.2
                == final(self).sort_direction),
            old(self).location is Desktop ==> r is None,
    {
        if let Location::Search(..) = &self.location {
            return None;
        }
        let dir = if self.sort_name == heading {
            !self.sort_direction
        } else {
            heading != HeadingOptions::Modified
        };
        self.set_sort(heading, dir)
    }

    /// Completions for the location being typed arrive for `path`: they are
    /// kept when the typed location is still at that path.
    pub fn tab_complete(&mut self, path: &str, completions: Vec<(String, String)>) -> (r: bool)
        ensures
            r == (old(self).edit_location matches Some(e) && (spec_path_opt(e.location) matches Some(p) && path_eq(
                p,
                path@,
            ))),
            r ==> (final(self).edit_location matches Some(e) && e.location == old(self).edit_location->0.location
                && e.selected == old(self).edit_location->0.selected && e.completions == Some(completions)),
            !r ==> final(self).edit_location == old(self).edit_location,
            final(self).location == old(self).location,
            final(self).history == old(self).history,
            final(self).history_i == old(self).history_i,
            final(self).items_opt == old(self).items_opt,
            final(self).select_focus == old(self).select_focus,
            final(self).select_range == old(self).select_range,
            final(self).mode == old(self).mode,
    {
        let matches = match &self.edit_location {
            Some(e) => match e.location.path_opt() {
                Some(p) => same_path(p.as_str(), path),
                None => false,
            },
            None => false,
        };
        if matches {
            let mut e = self.edit_location.take().unwrap();
            e.completions = Some(completions);
            self.edit_location = Some(e);
        }
        matches
    }

    /// A middle click on item `click_i`: with control or shift it acts as a
    /// press (see [`Tab::click`]). Otherwise it selects only that item and
    /// returns its path, with whether it is a folder (to open in a new tab)
    /// or a file (to open).
    pub fn middle_click(
        &mut self,
        click_i: usize,
        ctrl_held: bool,
        shift_held: bool,
        single_click: bool,
        order: Option<&Vec<usize>>,
    ) -> (r: Option<(String, bool)>)
        ensures
            final(self).location == old(self).location,
            final(self).history == old(self).history,
            final(self).history_i == old(self).history_i,
            final(self).mode == old(self).mode,
            (old(self).items_opt is Some <==> final(self).items_opt is Some),
            only_selection_changed(items_of(*old(self)), items_of(*final(self))),
            (ctrl_held || shift_held) && crate::tab::spec_multiple(old(self).mode) ==> r is None && pressed(
                *old(self),
                *final(self),
                Some(click_i),
                ctrl_held,
                shift_held,
                order_view(order),
            ),
            !((ctrl_held || shift_held) && crate::tab::spec_multiple(old(self).mode)) ==> {
                let items = items_of(*old(self));
                &&& forall|i: int| 0 <= i < items.len() ==> #[trigger] items_of(*final(self))[i].selected == (i == click_i)
                &&& final(self).select_range == if old(self).items_opt is Some {
                    Some((click_i, click_i))
                } else {
                    old(self).select_range
                }
                &&& final(self).select_focus == old(self).select_focus
                &&& (r is Some <==> (click_i < items.len() && item_path(items[click_i as int]) is Some))
                &&& (r matches Some(p) ==> (p.0@ == item_path(items[click_i as int])->0 && p.1
                    == items[click_i as int].is_dir))
            },
    {
        let mod_ctrl = ctrl_held && self.mode.multiple();
        let mod_shift = shift_held && self.mode.multiple();
        if mod_ctrl || mod_shift {
            let _ = self.click(Some(click_i), ctrl_held, shift_held, single_click, order);
            return None;
        }
        let ghost items0 = items_of(*self);
        let taken = self.take_items();
        match taken {
            None => None,
            Some(mut items) => {
                let mut i: usize = 0;
                while i < items.len()
                    invariant
                        i <= items@.len(),
                        items@.len() == items0.len(),
                        only_selection_changed(items0, items@),
                        forall|k: int| 0 <= k < i ==> #[trigger] items@[k].selected == (k == click_i),
                    decreases items@.len() - i,
                {
                    set_selected(&mut items, i, i == click_i);
                    i = i + 1;
                }
                self.select_range = Some((click_i, click_i));
                let r = if click_i < items.len() {
                    assert(items@[click_i as int].location_opt == items0[click_i as int].location_opt);
                    match items[click_i].path_opt() {
                        Some(p) => Some((p.clone(), items[click_i].is_dir)),
                        None => None,
                    }
                } else {
                    None
                };
                self.items_opt = Some(items);
                r
            },
        }
    }

    /// A drag rectangle on the items: with the mode allowing several items,
    /// applies it (see [`Tab::select_rect`]); drops the focus. Says whether
    /// there was a focus to drop.
    pub fn drag(&mut self, overlaps: &Vec<bool>, ctrl_held: bool, shift_held: bool) -> (r: bool)
        ensures
            r == old(self).select_focus is Some,
            final(self).select_focus is None,
            final(self).location == old(self).location,
            final(self).history == old(self).history,
            final(self).history_i == old(self).history_i,
            final(self).mode == old(self).mode,
            !crate::tab::spec_multiple(old(self).mode) ==> final(self).items_opt == old(self).items_opt,
            crate::tab::spec_multiple(old(self).mode) ==> {
                &&& (old(self).items_opt is Some <==> final(self).items_opt is Some)
                &&& rect_applied(items_of(*old(self)), items_of(*final(self)), overlaps@, ctrl_held, shift_held)
            },
    {
        let mod_ctrl = ctrl_held && self.mode.multiple();
        let mod_shift = shift_held && self.mode.multiple();
        if self.mode.multiple() {
            self.select_rect(overlaps, mod_ctrl, mod_shift);
        }
        let had = self.select_focus.is_some();
        self.select_focus = None;
        had
    }
}

} // verus!
