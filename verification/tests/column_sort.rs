use cosmic_files::column_sort::{column_sort, ItemMetadata, SortEntry, TrashItemSize};
use cosmic_files::tab::{HeadingOptions, Location};
use cosmic_files::tab_state::Tab;

fn file(size: u64, modified: Option<i128>, rank: u64) -> SortEntry {
    SortEntry {
        metadata: ItemMetadata::Path { is_dir: false, len: size, modified, children_opt: None },
        name_rank: rank,
    }
}

fn dir(children: Option<usize>, modified: Option<i128>, rank: u64) -> SortEntry {
    SortEntry {
        metadata: ItemMetadata::Path { is_dir: true, len: 4096, modified, children_opt: children },
        name_rank: rank,
    }
}

fn trashed(time: i64, rank: u64) -> SortEntry {
    SortEntry { metadata: ItemMetadata::Trash { size: TrashItemSize::Bytes(1), time_deleted: time }, name_rank: rank }
}

fn plain_item(path: &str) -> cosmic_files::tab_state::Item {
    cosmic_files::tab_state::Item {
        name: path.rsplit('/').next().unwrap().to_string(),
        hidden: false,
        is_dir: false,
        location_opt: Some(Location::Path(path.to_string())),
        pos_opt: None,
        selected: false,
        cut: false,
        overlaps_drag_rect: false,
    }
}

#[test]
fn size_puts_folders_first_in_both_directions() {
    let e = vec![file(10, None, 0), dir(Some(3), None, 1), file(5, None, 2), dir(None, None, 3)];
    assert_eq!(column_sort(&e, (HeadingOptions::Size, true, false)), vec![3, 1, 2, 0]);
    assert_eq!(column_sort(&e, (HeadingOptions::Size, false, false)), vec![1, 3, 0, 2]);
}

#[test]
fn name_follows_ranks_and_folders_first() {
    let e = vec![file(1, None, 2), dir(None, None, 3), file(1, None, 0), dir(None, None, 1)];
    assert_eq!(column_sort(&e, (HeadingOptions::Name, true, false)), vec![2, 3, 0, 1]);
    assert_eq!(column_sort(&e, (HeadingOptions::Name, false, false)), vec![1, 0, 3, 2]);
    assert_eq!(column_sort(&e, (HeadingOptions::Name, true, true)), vec![3, 1, 2, 0]);
    assert_eq!(column_sort(&e, (HeadingOptions::Name, false, true)), vec![1, 3, 0, 2]);
}

#[test]
fn equal_keys_keep_their_order() {
    let e = vec![file(7, None, 0), file(7, None, 0), file(7, None, 0)];
    assert_eq!(column_sort(&e, (HeadingOptions::Size, false, false)), vec![0, 1, 2]);
    assert_eq!(column_sort(&e, (HeadingOptions::Name, false, true)), vec![0, 1, 2]);
}

#[test]
fn unknown_modification_times_come_first() {
    let e = vec![file(1, Some(20), 0), file(1, None, 1), file(1, Some(-5), 2)];
    assert_eq!(column_sort(&e, (HeadingOptions::Modified, true, false)), vec![1, 2, 0]);
    assert_eq!(column_sort(&e, (HeadingOptions::Modified, false, false)), vec![0, 2, 1]);
}

#[test]
fn deletion_times_go_against_the_direction_without_folders_first() {
    let e = vec![trashed(100, 0), trashed(300, 1), trashed(200, 2)];
    assert_eq!(column_sort(&e, (HeadingOptions::TrashedOn, true, false)), vec![1, 2, 0]);
    assert_eq!(column_sort(&e, (HeadingOptions::TrashedOn, false, false)), vec![0, 2, 1]);
    assert_eq!(column_sort(&e, (HeadingOptions::TrashedOn, true, true)), vec![0, 2, 1]);
}

#[test]
fn metadata_answers() {
    let g = ItemMetadata::GvfsPath { mtime: 3, size_opt: Some(9), children_opt: None };
    assert_eq!(g.modified(), Some(3_000_000_000));
    assert_eq!(g.file_size(), Some(9));
    assert!(!g.is_dir());
    let t = ItemMetadata::Trash { size: TrashItemSize::Entries(4), time_deleted: 7 };
    assert!(t.is_dir());
    assert_eq!(t.file_size(), None);
    assert_eq!(t.sort_size(), (true, 4));
    assert_eq!(t.time_deleted(), Some(7));
    assert_eq!(ItemMetadata::SimpleFile { size: 2 }.modified(), None);
    assert_eq!(ItemMetadata::SimpleDir { entries: 5 }.sort_size(), (true, 5));
}

#[test]
fn a_tab_sorts_only_loaded_items_and_searches_newest_first() {
    let mut tab = Tab::new(Location::Path("/fs".to_string()), false, (HeadingOptions::Size, true));
    let e = vec![file(10, Some(1), 0), file(5, Some(2), 1)];
    assert_eq!(tab.column_sort(&e, false), None);
    tab.set_items(vec![plain_item("/fs/a"), plain_item("/fs/b")]);
    assert_eq!(tab.column_sort(&e, false), Some(vec![1, 0]));
    tab.location = Location::Search("/fs".to_string(), "x".to_string(), false, std::time::Instant::now());
    assert_eq!(tab.column_sort(&e, false), Some(vec![1, 0]));
}

#[test]
fn sort_long_number_file_names() {
    // Ten files whose names are one digit repeated 255 times, in shuffled order.
    let digits = ['7', '2', '9', '0', '5', '3', '8', '1', '6', '4'];
    let names: Vec<String> = digits.iter().map(|&d| std::iter::repeat(d).take(255).collect()).collect();
    let mut tab = Tab::new(Location::Path("/fs".to_string()), false, (HeadingOptions::Name, true));
    tab.set_items(
        names
            .iter()
            .map(|n| cosmic_files::tab_state::Item {
                name: n.clone(),
                hidden: false,
                is_dir: false,
                location_opt: Some(Location::Path(format!("/fs/{n}"))),
                pos_opt: None,
                selected: false,
                cut: false,
                overlaps_drag_rect: false,
            })
            .collect(),
    );
    // Numeric names rank by their number.
    let entries: Vec<SortEntry> =
        digits.iter().map(|&d| file(0, None, d.to_digit(10).unwrap() as u64)).collect();
    let order = tab.column_sort(&entries, true).unwrap();
    let sorted: Vec<char> = order.iter().map(|&i| digits[i]).collect();
    assert_eq!(sorted, vec!['0', '1', '2', '3', '4', '5', '6', '7', '8', '9']);
}
