use cosmic_files::nav_tree::{collapse_in_nodes, contains_in, depths_fit, load_in_nodes, NavTreeState, TreeNode};

fn tree() -> NavTreeState {
    NavTreeState::new("/home/u".into(), "Home".into(), "Filesystem", &vec!["/media/usb".to_string()])
}

#[test]
fn new_tree_has_home_root_and_mounts() {
    let t = tree();
    let names: Vec<&str> = t.roots.iter().map(|n| n.name.as_str()).collect();
    assert_eq!(names, ["Home", "Filesystem", "usb"]);
    assert!(t.roots.iter().all(|n| !n.expanded && n.depth == 0));
}

#[test]
fn toggling_opens_with_children_and_closes() {
    let mut t = tree();
    t.toggle_expand("/home/u", &vec!["/home/u/docs".into(), "/home/u/music".into()], "Filesystem");
    assert!(t.is_expanded("/home/u"));
    assert!(t.roots[0].expanded);
    assert_eq!(t.roots[0].children.len(), 2);
    assert_eq!(t.roots[0].children[1].name, "music");
    assert_eq!(t.roots[0].children[1].depth, 1);
    t.toggle_expand("/home/u/docs", &vec!["/home/u/docs/a".into()], "Filesystem");
    assert_eq!(t.roots[0].children[0].children.len(), 1);
    assert!(contains_in(&t.roots, "/home/u/docs/a"));
    t.toggle_expand("/home/u", &vec![], "Filesystem");
    assert!(!t.is_expanded("/home/u"));
    assert!(t.is_expanded("/home/u/docs"));
    assert!(!t.roots[0].expanded);
    assert!(t.roots[0].children.is_empty());
}

#[test]
fn loading_an_unknown_path_changes_nothing() {
    let mut nodes = vec![TreeNode::new("/a".into(), 0, "Filesystem")];
    assert!(!load_in_nodes(&mut nodes, "/b", &vec!["/b/c".into()], "Filesystem"));
    assert!(nodes[0].children.is_empty());
    collapse_in_nodes(&mut nodes, "/zzz");
    assert_eq!(nodes.len(), 1);
}

#[test]
fn expand_plan_walks_down_from_the_deepest_root() {
    use_plan();
}

fn use_plan() {
    let t = NavTreeState::new("/home/u".into(), "Home".into(), "Filesystem", &vec![]);
    let plan = cosmic_files::nav_tree::expand_plan(&t.roots, "/home/u/a/b").unwrap();
    assert_eq!(plan, ["/home/u", "/home/u/a", "/home/u/a/b"]);
    let plan = cosmic_files::nav_tree::expand_plan(&t.roots, "/etc").unwrap();
    assert_eq!(plan, ["/", "/etc"]);
    let empty = NavTreeState::new("/home/u".into(), "Home".into(), "Filesystem", &vec![]);
    assert!(cosmic_files::nav_tree::expand_plan(&empty.roots[..1].iter().map(|n| TreeNode::new(n.path.clone(), 0, "F")).collect(), "/etc").is_none());
}

#[test]
fn hidden_folders_are_added_in_name_order() {
    let mut t = NavTreeState::new("/home/u".into(), "Home".into(), "Filesystem", &vec![]);
    t.toggle_expand("/home/u", &vec!["/home/u/Apple".into(), "/home/u/cherry".into()], "Filesystem");
    t.ensure_child_exists("/home/u", "/home/u/.banana", true, "Filesystem");
    let names: Vec<&str> = t.roots[0].children.iter().map(|n| n.name.as_str()).collect();
    assert_eq!(names, [".banana", "Apple", "cherry"]);
    t.ensure_child_exists("/home/u", "/home/u/Apple", true, "Filesystem");
    assert_eq!(t.roots[0].children.len(), 3);
    t.ensure_child_exists("/home/u", "/home/u/file", false, "Filesystem");
    assert_eq!(t.roots[0].children.len(), 3);
}

#[test]
fn the_scroll_offset_counts_the_lines_above_the_current_folder() {
    let mut t = tree();
    assert_eq!(t.scroll_offset_for_current(), 0);
    t.set_current("/home/u".to_string());
    assert_eq!(t.scroll_offset_for_current(), 40);
    t.set_current("/".to_string());
    assert_eq!(t.scroll_offset_for_current(), 40 + 32);
    // An open home folder adds its children; a long name wraps.
    let long = format!("/home/u/{}", "x".repeat(40));
    t.toggle_expand("/home/u", &vec!["/home/u/docs".into(), long.clone()], "Filesystem");
    assert_eq!(t.scroll_offset_for_current(), 40 + 32 * (1 + 1 + 2));
    t.set_current(long);
    assert_eq!(t.scroll_offset_for_current(), 40 + 32 * 2);
    // A folder that is not in the tree counts every line shown.
    t.set_current("/nowhere".to_string());
    assert_eq!(t.scroll_offset_for_current(), 40 + 32 * (1 + 1 + 2 + 1 + 1));
}

#[test]
fn toggling_a_folder_twice_restores_the_open_folders() {
    let mut t = tree();
    t.toggle_expand("/media/usb", &vec![], "Filesystem");
    let before = t.expanded_paths.clone();
    t.toggle_expand("/home/u", &vec!["/home/u/docs".into()], "Filesystem");
    assert!(depths_fit(&t.roots));
    t.toggle_expand("/home/u", &vec![], "Filesystem");
    assert_eq!(t.expanded_paths, before);
    assert!(t.roots[0].children.is_empty());
}

#[test]
fn a_node_at_the_deepest_level_leaves_no_room() {
    let deep = vec![TreeNode::new("/a".into(), usize::MAX, "Filesystem")];
    assert!(!depths_fit(&deep));
    assert!(depths_fit(&tree().roots));
}
