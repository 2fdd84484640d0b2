use cosmic_files::hidden::{hidden_by_name, mark_hidden, parse_hidden_file};
use cosmic_files::tab_state::Item;
use cosmic_files::nav_tree::TreeNode;
use cosmic_files::remote::{RemoteKey, RemoteKeyError};
use cosmic_files::search::{matches_date, SearchDate, DAY_NANOS};
use cosmic_files::tab::{fs_kind_of_type, uri_to_path, FsKind, Location, LocationTitle, FolderLabel};
use cosmic_files::trash::{is_empty_blocking, trash_entries, trash_folders_blocking};

#[test]
fn trash_answers_default_when_unknown() {
    assert_eq!(trash_entries(Some(3)), 3);
    assert_eq!(trash_entries(None), 0);
    assert!(is_empty_blocking(None));
    assert!(!is_empty_blocking(Some(false)));
    assert!(trash_folders_blocking(None).is_empty());
    assert_eq!(trash_folders_blocking(Some(vec!["/t".into()])), vec!["/t".to_string()]);
}

#[test]
fn remote_keys_need_sftp_and_a_host() {
    assert_eq!(RemoteKey::from_url_parts("ftp", Some("h"), "u", None, "me"), Err(RemoteKeyError::UnsupportedScheme));
    assert_eq!(RemoteKey::from_url_parts("sftp", None, "u", None, "me"), Err(RemoteKeyError::NoHost));
    let key = RemoteKey::from_url_parts("sftp", Some("host"), "", Some(22), "me").unwrap();
    assert_eq!(key.username, "me");
    assert_eq!(key.host, "host");
    assert_eq!(key.port_opt, Some(22));
    let key = RemoteKey::from_url_parts("sftp", Some("host"), "bob", None, "me").unwrap();
    assert_eq!(key.username, "bob");
}

#[test]
fn tree_nodes_are_named_by_their_last_component() {
    assert_eq!(TreeNode::new("/home/user/docs".into(), 2, "Filesystem").name, "docs");
    assert_eq!(TreeNode::new("/".into(), 0, "Filesystem").name, "Filesystem");
    let n = TreeNode::new_with_name("/home/user".into(), "Home".into(), 0);
    assert_eq!(n.name, "Home");
    assert!(!n.expanded && n.children.is_empty());
}

#[test]
fn fs_kinds_by_mount_type() {
    assert_eq!(fs_kind_of_type("nfs4"), FsKind::Remote);
    assert_eq!(fs_kind_of_type("fuse.sshfs"), FsKind::Remote);
    assert_eq!(fs_kind_of_type("fuse.gvfsd-fuse"), FsKind::Gvfs);
    assert_eq!(fs_kind_of_type("ext4"), FsKind::Local);
}

#[test]
fn date_filters() {
    let now = 1_000 * DAY_NANOS;
    let today = (2024, 5, 10);
    let yesterday = Some((2024, 5, 9));
    assert!(matches_date(SearchDate::Today, now, Some(today), now, today, yesterday));
    assert!(!matches_date(SearchDate::Today, now, None, now, today, yesterday));
    assert!(matches_date(SearchDate::Yesterday, now - DAY_NANOS, Some((2024, 5, 9)), now, today, yesterday));
    assert!(matches_date(SearchDate::PastWeek, now - 7 * DAY_NANOS, Some((2024, 5, 3)), now, today, yesterday));
    assert!(!matches_date(SearchDate::PastWeek, now - 7 * DAY_NANOS - 1, Some((2024, 5, 3)), now, today, yesterday));
    assert!(matches_date(SearchDate::PastYear, now - 300 * DAY_NANOS, Some((2023, 7, 15)), now, today, yesterday));
}

#[test]
fn location_titles() {
    match Location::Path("/home/u".into()).title("/home/u") {
        LocationTitle::Folder(FolderLabel::Home) => {}
        other => panic!("unexpected {:?}", other),
    }
    match Location::Path("/".into()).title("/home/u") {
        LocationTitle::Folder(FolderLabel::Filesystem) => {}
        other => panic!("unexpected {:?}", other),
    }
    match Location::Path("/srv/data".into()).title("/home/u") {
        LocationTitle::Folder(FolderLabel::Named(n)) => assert_eq!(n, "data"),
        other => panic!("unexpected {:?}", other),
    }
    let anc = Location::Path("/home/u/a/b".into()).ancestors("/home/u");
    let paths: Vec<String> = anc.iter().map(|(l, _)| l.path_opt().unwrap().clone()).collect();
    assert_eq!(paths, ["/home/u/a/b", "/home/u/a", "/home/u"]);
    assert_eq!(anc[2].1, FolderLabel::Home);
}

#[test]
fn hidden_file_lists_trimmed_nonempty_lines() {
    assert_eq!(parse_hidden_file("a\n  b  \r\n\n\t\nc"), ["a", "b", "c"]);
    assert!(parse_hidden_file("").is_empty());
    assert_eq!(parse_hidden_file("x\n"), ["x"]);
    assert_eq!(parse_hidden_file("\u{3000}y\u{a0}\n"), ["y"]);
}

#[test]
fn hidden_marks_come_from_dots_and_the_list() {
    assert!(hidden_by_name(".bashrc", false));
    assert!(!hidden_by_name("notes", false));
    assert!(hidden_by_name("notes", true));
    let item = |name: &str| Item {
        name: name.to_string(),
        hidden: false,
        is_dir: false,
        location_opt: None,
        pos_opt: None,
        selected: false,
        cut: false,
        overlaps_drag_rect: false,
    };
    let mut items = vec![item("a"), item("b")];
    mark_hidden(&mut items, &vec!["b".to_string()]);
    assert!(!items[0].hidden);
    assert!(items[1].hidden);
}

#[test]
fn mime_guesses_are_chosen() {
    use_mime_checks();
}

fn use_mime_checks() {
    assert!(cosmic_files::mime_icon::use_name_guess(true, false, "text/plain"));
    assert!(!cosmic_files::mime_icon::use_name_guess(true, false, "inode/directory"));
    assert!(cosmic_files::mime_icon::use_name_guess(true, true, "inode/directory"));
    assert!(!cosmic_files::mime_icon::use_name_guess(false, true, "text/plain"));
    assert_eq!(
        cosmic_files::mime_icon::mime_from_content(Some(("image/png".into(), 90)), Some("x/y".into())),
        Some("image/png".to_string())
    );
    assert_eq!(
        cosmic_files::mime_icon::mime_from_content(Some(("image/png".into(), 50)), Some("x/y".into())),
        Some("x/y".to_string())
    );
    assert_eq!(cosmic_files::mime_icon::mime_from_content(None, None), None);
    assert_eq!(cosmic_files::mime_icon::icon_names(vec![]), None);
    assert_eq!(
        cosmic_files::mime_icon::icon_names(vec!["a".into(), "b".into()]),
        Some(("a".to_string(), vec!["b".to_string()]))
    );
}

#[test]
fn recent_file_uris_become_paths() {
    assert_eq!(uri_to_path("file:///home/u/a.txt".to_string()), Some("/home/u/a.txt".to_string()));
    assert_eq!(uri_to_path("file://".to_string()), Some(String::new()));
    assert_eq!(uri_to_path("sftp://host/a".to_string()), None);
    assert_eq!(uri_to_path("/plain".to_string()), None);
}

#[test]
fn folder_labels_show_display_names() {
    let named = FolderLabel::Named("docs".to_string());
    assert_eq!(named.text(Some("Documents".to_string()), "Home", "Filesystem"), "Documents");
    assert_eq!(named.text(None, "Home", "Filesystem"), "docs");
    assert_eq!(FolderLabel::Home.text(Some("u".to_string()), "Home", "Filesystem"), "Home");
    assert_eq!(FolderLabel::Filesystem.text(None, "Home", "Filesystem"), "Filesystem");
}
