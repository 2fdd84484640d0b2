use cosmic_files::tab::{DialogKind, EditLocation, HeadingOptions, Location, Mode};
use cosmic_files::tab_state::{cd_target, initial_sort, location_request, navigate_desktop, Item, LocationRequest, Navigation, Tab};
use std::path::Path;

fn dir_item(path: &str, pos: (usize, usize)) -> Item {
    Item {
        name: Path::new(path).file_name().unwrap().to_string_lossy().into_owned(),
        hidden: false,
        is_dir: true,
        location_opt: Some(Location::Path(path.to_string())),
        pos_opt: Some(pos),
        selected: false,
        cut: false,
        overlaps_drag_rect: false,
    }
}

fn file_item(path: &str, pos: (usize, usize)) -> Item {
    Item { is_dir: false, ..dir_item(path, pos) }
}

fn tab_path(tab: &Tab) -> &str {
    match &tab.location {
        Location::Path(p) => p.as_str(),
        other => panic!("not a path location: {:?}", other),
    }
}

fn assert_eq_tab_path(tab: &Tab, path: &str) {
    assert_eq!(Path::new(tab_path(tab)), Path::new(path));
}

/// A tab on "/fs" with two folders and two files, laid out in one row.
fn tab_click_new() -> Tab {
    let mut tab = Tab::new(Location::Path("/fs".to_string()), false, (HeadingOptions::Name, true));
    tab.set_items(vec![
        dir_item("/fs/dir0", (0, 0)),
        dir_item("/fs/dir1", (0, 1)),
        file_item("/fs/file0", (0, 2)),
        file_item("/fs/file1", (0, 3)),
    ]);
    tab
}

fn selected(tab: &Tab) -> Vec<bool> {
    tab.items_opt().unwrap().iter().map(|i| i.selected).collect()
}

/// Goes to `location` as the tab does on request, the folders named in
/// `dirs` being the folders that exist.
fn cd(tab: &mut Tab, location: Location, history_i: Option<usize>, dirs: &[&str]) -> Navigation {
    let is_dir = |p: &str| dirs.iter().any(|d| Path::new(d) == Path::new(p));
    let path_is_dir = location.path_opt().map_or(true, |p| is_dir(p));
    let (target, sel) = cd_target(&location, path_is_dir);
    let target_is_dir = target.path_opt().map_or(true, |p| is_dir(p));
    tab.go_to(target, sel, history_i, target_is_dir)
}

fn history_fixture() -> (Tab, Vec<&'static str>, Vec<&'static str>) {
    let dirs = vec!["/fs/a", "/fs/a/a1", "/fs/b", "/fs/b/b1", "/fs/c"];
    let mut all = vec!["/fs"];
    all.extend(dirs.iter());
    let mut tab = Tab::new(Location::Path("/fs".to_string()), false, (HeadingOptions::Name, true));
    for dir in &dirs {
        cd(&mut tab, Location::Path(dir.to_string()), None, &all);
    }
    (tab, dirs, all)
}

fn go_previous(tab: &mut Tab, all: &[&str]) {
    if let Some((loc, i)) = tab.previous_in_history() {
        cd(tab, loc, Some(i), all);
    }
}

fn go_next(tab: &mut Tab, all: &[&str]) {
    if let Some((loc, i)) = tab.next_in_history() {
        cd(tab, loc, Some(i), all);
    }
}

#[test]
fn tab_location_changes_location() {
    let mut tab = Tab::new(Location::Path("/fs".to_string()), false, (HeadingOptions::Name, true));
    tab.set_items(vec![dir_item("/fs/next", (0, 0))]);
    // A request for a folder goes there.
    let request = location_request(Location::Path("/fs/next".to_string()), true);
    let LocationRequest::GoTo(location) = request else { panic!("a folder is gone to") };
    let nav = cd(&mut tab, location, None, &["/fs", "/fs/next"]);
    assert!(matches!(nav, Navigation::Changed(..)));
    assert_eq_tab_path(&tab, "/fs/next");
    assert!(tab.items_opt().is_none());
}

#[test]
fn a_location_request_for_a_file_opens_it() {
    match location_request(Location::Path("/fs/notes.txt".to_string()), false) {
        LocationRequest::OpenFile(p) => assert_eq!(p, "/fs/notes.txt"),
        other => panic!("expected the file to open, got {:?}", other),
    }
    assert!(matches!(location_request(Location::Trash, false), LocationRequest::GoTo(Location::Trash)));
}

#[test]
fn tab_click_single_selects_item() {
    let mut tab = tab_click_new();
    tab.click(Some(1), false, false, false, None);
    assert_eq!(selected(&tab)[..2], [false, true]);
}

#[test]
fn tab_click_ctrl_selects_multiple() {
    let mut tab = tab_click_new();
    for click in [0, 1] {
        tab.click(Some(click), true, false, false, None);
    }
    assert_eq!(selected(&tab)[..2], [true, true]);
}

#[test]
fn tab_click_double_opens_folder() {
    let mut tab = tab_click_new();
    let (cd_opt, open) = tab.double_click(Some(1));
    assert!(open.is_empty());
    let location = cd_opt.expect("double click on a folder goes there");
    cd(&mut tab, location, None, &["/fs", "/fs/dir0", "/fs/dir1"]);
    assert_eq_tab_path(&tab, "/fs/dir1");
}

#[test]
fn tab_gonext_moves_forward_in_history() {
    let (mut tab, dirs, all) = history_fixture();
    for _ in 0..dirs.len() {
        go_previous(&mut tab, &all);
    }
    assert_eq_tab_path(&tab, "/fs");
    for dir in dirs {
        go_next(&mut tab, &all);
        assert_eq_tab_path(&tab, dir);
    }
}

#[test]
fn tab_goprev_moves_backward_in_history() {
    let (mut tab, dirs, all) = history_fixture();
    for dir in dirs.into_iter().rev() {
        assert_eq_tab_path(&tab, dir);
        go_previous(&mut tab, &all);
    }
    assert_eq_tab_path(&tab, "/fs");
}

#[test]
fn tab_empty_history_does_nothing_on_prev_next() {
    let mut tab = Tab::new(Location::Path("/fs".to_string()), false, (HeadingOptions::Name, true));
    go_previous(&mut tab, &["/fs"]);
    assert_eq_tab_path(&tab, "/fs");
    go_next(&mut tab, &["/fs"]);
    assert_eq_tab_path(&tab, "/fs");
}

#[test]
fn tab_locationup_moves_up_hierarchy() {
    let all = ["/", "/fs", "/fs/a", "/fs/a/deep"];
    let mut tab = Tab::new(Location::Path("/fs/a/deep".to_string()), false, (HeadingOptions::Name, true));
    let mut next_dir = std::path::PathBuf::from("/fs/a/deep");
    while next_dir.pop() {
        if let Some(up) = tab.location_up() {
            cd(&mut tab, up, None, &all);
        }
        assert_eq_tab_path(&tab, next_dir.to_str().unwrap());
    }
}

#[test]
fn new_tab_normalizes_its_location() {
    let tab = Tab::new(Location::Path("/fs/a".to_string()), true, (HeadingOptions::Name, true));
    assert_eq!(tab_path(&tab), "/fs/a/");
    assert_eq!(tab.history.len(), 1);
    assert_eq!(tab.history_i, 0);
    assert!(tab.previous_in_history().is_none());
    assert!(tab.next_in_history().is_none());
}

#[test]
fn going_back_then_forward_returns_to_the_same_entry() {
    let (mut tab, _dirs, all) = history_fixture();
    let history_before = tab.history.clone();
    let i_before = tab.history_i;
    go_previous(&mut tab, &all);
    go_next(&mut tab, &all);
    assert_eq!(tab.history, history_before);
    assert_eq!(tab.history_i, i_before);
    assert_eq_tab_path(&tab, "/fs/c");
}

#[test]
fn visiting_after_going_back_drops_forward_history() {
    let (mut tab, _dirs, mut all) = history_fixture();
    all.push("/fs/d");
    go_previous(&mut tab, &all);
    go_previous(&mut tab, &all);
    cd(&mut tab, Location::Path("/fs/d".to_string()), None, &all);
    assert!(tab.next_in_history().is_none());
    assert_eq!(tab.history.len(), 5);
    let (back, _) = tab.previous_in_history().unwrap();
    assert_eq!(back, Location::Path("/fs/b".to_string()));
}

#[test]
fn visiting_the_same_path_again_keeps_one_entry() {
    let mut tab = Tab::new(Location::Path("/fs".to_string()), false, (HeadingOptions::Name, true));
    let all = ["/fs", "/fs/a"];
    cd(&mut tab, Location::Path("/fs/a".to_string()), None, &all);
    tab.change_location(&Location::Path("/fs/a/".to_string()), None);
    assert_eq!(tab.history.len(), 2);
    assert_eq!(tab.history_i, 1);
}

#[test]
fn going_to_a_file_opens_its_folder_with_it_selected() {
    let mut tab = Tab::new(Location::Path("/fs".to_string()), false, (HeadingOptions::Name, true));
    let nav = cd(&mut tab, Location::Path("/fs/a/notes.txt".to_string()), None, &["/fs", "/fs/a"]);
    match nav {
        Navigation::Changed(l, Some(sel)) => {
            assert_eq!(l, Location::Path("/fs/a".to_string()));
            assert_eq!(sel, vec!["/fs/a/notes.txt".to_string()]);
        }
        other => panic!("unexpected {:?}", other),
    }
}

#[test]
fn going_to_the_current_folder_stays() {
    let mut tab = Tab::new(Location::Path("/fs".to_string()), false, (HeadingOptions::Name, true));
    let current = tab.location.clone();
    assert!(matches!(cd(&mut tab, current, None, &["/fs", "/fs/"]), Navigation::Stay));
    let nav = cd(&mut tab, Location::Path("/missing".to_string()), None, &["/fs"]);
    assert!(matches!(nav, Navigation::NotDirectory));
}

#[test]
fn desktop_opens_instead_of_navigating() {
    assert!(matches!(navigate_desktop(&Location::Trash), Navigation::OpenTrash));
    assert!(matches!(navigate_desktop(&Location::Recents), Navigation::Stay));
    match navigate_desktop(&Location::Path("/x".into())) {
        Navigation::OpenFile(p) => assert_eq!(p, "/x"),
        other => panic!("unexpected {:?}", other),
    }
}

#[test]
fn plain_click_deselects_others_and_sets_range() {
    let mut tab = tab_click_new();
    tab.click(Some(0), false, false, false, None);
    tab.click(Some(2), false, false, false, None);
    assert_eq!(selected(&tab), [false, false, true, false]);
    assert_eq!(tab.select_focus, Some(2));
    assert_eq!(tab.select_range, Some((2, 2)));
}

#[test]
fn shift_click_selects_a_range_by_index_or_shown_order() {
    let mut tab = tab_click_new();
    tab.click(Some(1), false, false, false, None);
    tab.click(Some(3), false, true, false, None);
    assert_eq!(selected(&tab), [false, true, true, true]);
    assert_eq!(tab.select_range, Some((1, 3)));

    let mut tab = tab_click_new();
    let order = vec![3, 1, 0, 2];
    tab.click(Some(1), false, false, false, Some(&order));
    tab.click(Some(2), false, true, false, Some(&order));
    assert_eq!(selected(&tab), [true, true, true, false]);
}

#[test]
fn single_click_opens_files_and_folders() {
    let mut tab = tab_click_new();
    let (cd_opt, open) = tab.click(Some(2), false, false, true, None);
    assert!(cd_opt.is_none());
    assert_eq!(open, vec!["/fs/file0".to_string()]);
    let (cd_opt, open) = tab.click(Some(0), false, false, true, None);
    assert_eq!(cd_opt, Some(Location::Path("/fs/dir0".to_string())));
    assert!(open.is_empty());
}

#[test]
fn folder_dialog_does_not_select_files() {
    let mut tab = tab_click_new();
    tab.mode = Mode::Dialog(DialogKind::OpenFolder);
    tab.click(Some(2), false, false, false, None);
    assert_eq!(selected(&tab), [false, false, false, false]);
    tab.click(Some(1), false, false, false, None);
    assert_eq!(selected(&tab), [false, true, false, false]);
}

#[test]
fn release_without_ctrl_keeps_only_the_released_item() {
    let mut tab = tab_click_new();
    tab.select_all();
    tab.click_release(Some(1), false);
    assert_eq!(selected(&tab), [false, true, false, false]);
    assert!(tab.clicked.is_none());
}

#[test]
fn right_click_on_unselected_item_selects_only_it() {
    let mut tab = tab_click_new();
    tab.select_all();
    tab.right_click(Some(1), false, false, false, None);
    assert_eq!(selected(&tab), [true, true, true, true]);
    tab.select_none();
    tab.right_click(Some(2), false, false, false, None);
    assert_eq!(selected(&tab), [false, false, true, false]);
}

#[test]
fn select_all_skips_hidden_unless_shown() {
    let mut tab = tab_click_new();
    let mut items: Vec<Item> = tab.items_opt().unwrap().clone();
    items[0].hidden = true;
    tab.set_items(items.clone());
    tab.select_all();
    assert_eq!(selected(&tab), [false, true, true, true]);
    assert!(tab.select_none());
    assert!(!tab.select_none());
    assert_eq!(tab.select_focus, None);
    tab.show_hidden = true;
    tab.select_all();
    assert_eq!(selected(&tab), [true, true, true, true]);
}

#[test]
fn select_name_and_paths_focus_the_last_match() {
    let mut tab = tab_click_new();
    tab.select_name("file0");
    assert_eq!(selected(&tab), [false, false, true, false]);
    assert_eq!(tab.select_focus, Some(2));
    tab.select_paths(vec!["/fs/dir0".into(), "/fs/file1".into()]);
    assert_eq!(selected(&tab), [true, false, false, true]);
    assert_eq!(tab.select_focus, Some(3));
    tab.select_name("nothing");
    assert_eq!(tab.select_focus, None);
}

#[test]
fn selection_survives_new_items_by_location() {
    let mut tab = tab_click_new();
    tab.select_name("dir1");
    assert_eq!(tab.selected_locations(), vec![Location::Path("/fs/dir1".into())]);
    tab.set_items(vec![dir_item("/fs/dir1", (0, 0)), dir_item("/fs/new", (0, 1))]);
    assert_eq!(selected(&tab), [true, false]);
}

#[test]
fn cut_marks_follow_selection_and_paths() {
    let mut tab = tab_click_new();
    tab.select_name("dir0");
    tab.cut_selected();
    let cut: Vec<bool> = tab.items_opt().unwrap().iter().map(|i| i.cut).collect();
    assert_eq!(cut, [true, false, false, false]);
    tab.refresh_cut(&vec!["/fs/file1".to_string()]);
    let cut: Vec<bool> = tab.items_opt().unwrap().iter().map(|i| i.cut).collect();
    assert_eq!(cut, [false, false, false, true]);
}

#[test]
fn drag_rectangle_selects_or_toggles() {
    let mut tab = tab_click_new();
    tab.select_rect(&vec![true, true], false, false);
    assert_eq!(selected(&tab), [true, true, false, false]);
    tab.select_rect(&vec![false, true, true], true, false);
    assert_eq!(selected(&tab), [false, true, true, false]);
}

#[test]
fn dragging_applies_the_rectangle_only_where_several_items_may_be_selected() {
    let mut tab = tab_click_new();
    tab.select_focus = Some(0);
    assert!(tab.drag(&vec![false, true, true], false, false));
    assert_eq!(selected(&tab), [false, true, true, false]);
    assert_eq!(tab.select_focus, None);
    let mut single = tab_click_new();
    single.mode = Mode::Dialog(DialogKind::OpenFile);
    assert!(!single.drag(&vec![true, true], false, false));
    assert_eq!(selected(&single), [false, false, false, false]);
}

#[test]
fn modified_secondary_and_middle_clicks_press_first() {
    let mut tab = tab_click_new();
    tab.click(Some(0), false, false, false, None);
    // Control adds the item before the secondary click keeps the selection.
    tab.right_click(Some(2), true, false, false, None);
    assert_eq!(selected(&tab), [true, false, true, false]);
    let mut tab = tab_click_new();
    tab.click(Some(0), false, false, false, None);
    assert_eq!(tab.middle_click(3, true, false, false, None), None);
    assert_eq!(selected(&tab), [true, false, false, true]);
    let mut tab = tab_click_new();
    assert_eq!(tab.middle_click(1, false, false, false, None), Some(("/fs/dir1".to_string(), true)));
    assert_eq!(selected(&tab), [false, true, false, false]);
}

#[test]
fn normalizing_adds_a_trailing_separator_once() {
    let once = Location::Path("/home/user".to_string()).normalize();
    assert_eq!(once, Location::Path("/home/user/".to_string()));
    assert_eq!(once.normalize(), once);
    assert_eq!(Location::Trash.normalize(), Location::Trash);
}

#[test]
fn ancestors_keep_the_kind_of_location() {
    let now = std::time::Instant::now();
    let search = Location::Search("/home/u/a".to_string(), "term".to_string(), true, now);
    let anc = search.ancestors("/home/u");
    assert_eq!(anc.len(), 2);
    assert_eq!(anc[1].0, Location::Search("/home/u".to_string(), "term".to_string(), true, now));
}

/// A grid of two rows: three items, then two.
fn grid_tab() -> Tab {
    let mut tab = Tab::new(Location::Path("/g".to_string()), false, (HeadingOptions::Name, true));
    tab.set_items(vec![
        file_item("/g/a", (0, 0)),
        file_item("/g/b", (0, 1)),
        file_item("/g/c", (0, 2)),
        file_item("/g/d", (1, 0)),
        file_item("/g/e", (1, 1)),
    ]);
    tab
}

#[test]
fn arrow_keys_move_through_the_grid() {
    let mut tab = grid_tab();
    tab.item_right(false);
    assert_eq!(selected(&tab), [true, false, false, false, false]);
    tab.item_right(false);
    tab.item_right(false);
    assert_eq!(tab.select_focus, Some(2));
    tab.item_right(false);
    assert_eq!(tab.select_focus, Some(3));
    tab.item_left(false);
    assert_eq!(tab.select_focus, Some(2));
    tab.item_down(false);
    assert_eq!(tab.select_focus, Some(2));
    tab.item_left(false);
    tab.item_down(false);
    assert_eq!(tab.select_focus, Some(4));
    tab.item_up(false);
    assert_eq!(tab.select_focus, Some(1));
    assert_eq!(selected(&tab), [false, true, false, false, false]);
}

#[test]
fn shift_arrows_extend_the_selection() {
    let mut tab = grid_tab();
    tab.select_first(false);
    tab.item_right(true);
    tab.item_right(true);
    assert_eq!(selected(&tab), [true, true, true, false, false]);
    assert!(tab.select_last(false));
    assert_eq!(selected(&tab), [false, false, false, false, true]);
}

#[test]
fn arrows_step_completions_while_typing_a_location() {
    let mut tab = grid_tab();
    let mut edit = EditLocation::from_location(tab.location.clone());
    edit.completions = Some(vec![("a".into(), "/g/a".into()), ("b".into(), "/g/b".into())]);
    tab.edit_location = Some(edit);
    tab.item_down(false);
    assert_eq!(tab.edit_location.as_ref().unwrap().selected, Some(0));
    tab.item_up(false);
    assert_eq!(tab.edit_location.as_ref().unwrap().selected, Some(1));
    let resolved = tab.edit_location.as_ref().unwrap().resolve();
    assert_eq!(resolved, Some(Location::Path("/g/b".into())));
}

#[test]
fn edit_location_select_wraps_and_round_trips() {
    let mut e = EditLocation::from_location(Location::Path("/x".into()));
    e.select(true);
    assert_eq!(e.selected, None);
    e.completions = Some(vec![]);
    e.select(true);
    assert_eq!(e.selected, None);
    e.completions = Some(vec![("a".into(), "/a".into()), ("b".into(), "/b".into()), ("c".into(), "/c".into())]);
    e.select(false);
    assert_eq!(e.selected, Some(2));
    e.select(true);
    assert_eq!(e.selected, Some(0));
    e.select(true);
    e.select(false);
    assert_eq!(e.selected, Some(0));
    assert_eq!(e.resolve(), Some(Location::Path("/a".into())));
    e.selected = Some(9);
    assert_eq!(e.resolve(), None);
    e.selected = None;
    assert_eq!(e.resolve(), Some(Location::Path("/x".into())));
}

#[test]
fn open_selection_splits_folders_and_files() {
    let mut tab = tab_click_new();
    tab.select_all();
    let (cd_opt, files) = tab.open_selected();
    assert_eq!(cd_opt, Some(Location::Path("/fs/dir1".into())));
    assert_eq!(files, Some(vec!["/fs/file0".to_string(), "/fs/file1".to_string()]));
}

#[test]
fn heading_names_and_modes() {
    assert_eq!(HeadingOptions::names(), ["name", "modified", "size", "trashed-on"]);
    assert!(Mode::App.multiple());
    assert!(Mode::Desktop.multiple());
    assert!(!Mode::Dialog(DialogKind::OpenFile).multiple());
    assert!(Mode::Dialog(DialogKind::OpenMultipleFolders).multiple());
    assert!(DialogKind::OpenFolder.is_dir());
    assert!(DialogKind::SaveFile { filename: "x".into() }.save());
}

#[test]
fn sorting_toggles_and_remembers_per_location() {
    assert_eq!(initial_sort(None, None), (HeadingOptions::Name, true));
    assert_eq!(initial_sort(None, Some((HeadingOptions::Modified, false))), (HeadingOptions::Modified, false));
    assert_eq!(
        initial_sort(Some((HeadingOptions::Size, true)), Some((HeadingOptions::Modified, false))),
        (HeadingOptions::Size, true)
    );
    let mut tab = Tab::new(Location::Path("/fs".to_string()), false, (HeadingOptions::Name, true));
    let saved = tab.toggle_sort(HeadingOptions::Name);
    assert_eq!(saved, Some(("/fs/".to_string(), HeadingOptions::Name, false)));
    let saved = tab.toggle_sort(HeadingOptions::Modified);
    assert_eq!(saved, Some(("/fs/".to_string(), HeadingOptions::Modified, false)));
    tab.toggle_sort(HeadingOptions::Size);
    assert_eq!((tab.sort_name, tab.sort_direction), (HeadingOptions::Size, true));
    assert_eq!(tab.sort_options(true), (HeadingOptions::Size, true, true));
    tab.location = Location::Trash;
    assert_eq!(tab.set_sort(HeadingOptions::Name, true), Some(("trash".to_string(), HeadingOptions::Name, true)));
}

#[test]
fn middle_click_selects_and_opens() {
    let mut tab = tab_click_new();
    tab.select_all();
    assert_eq!(tab.middle_click(0, false, false, false, None), Some(("/fs/dir0".to_string(), true)));
    assert_eq!(selected(&tab), [true, false, false, false]);
    assert_eq!(tab.select_range, Some((0, 0)));
    assert_eq!(tab.middle_click(3, false, false, false, None), Some(("/fs/file1".to_string(), false)));
    assert_eq!(tab.middle_click(9, false, false, false, None), None);
}

#[test]
fn completions_are_kept_for_the_typed_path() {
    let mut tab = grid_tab();
    tab.edit_location = Some(EditLocation::from_location(Location::Path("/g".into())));
    assert!(!tab.tab_complete("/other", vec![("x".into(), "/x".into())]));
    assert!(tab.edit_location.as_ref().unwrap().completions.is_none());
    assert!(tab.tab_complete("/g/", vec![("x".into(), "/x".into())]));
    assert_eq!(tab.edit_location.as_ref().unwrap().completions.as_ref().unwrap().len(), 1);
}

#[test]
fn drag_drops_the_focus() {
    let mut tab = tab_click_new();
    tab.click(Some(1), false, false, false, None);
    assert!(tab.drag(&vec![false, false, true], false, false));
    assert_eq!(selected(&tab), [false, false, true, false]);
    assert!(!tab.drag(&vec![], false, false));
}

#[test]
fn locations_are_written_out() {
    assert_eq!(Location::Path("/a/b".into()).display_text(), "/a/b");
    assert_eq!(Location::Trash.display_text(), "trash");
    assert_eq!(Location::Recents.display_text(), "recents");
}
