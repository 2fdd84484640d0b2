use cosmic_files::network::{entry_shown, ListingStep, NetworkWalk};

#[test]
fn walk_enters_each_folder_once() {
    let mut walk = NetworkWalk::new("smb://server/".to_string());
    assert_eq!(walk.next(), Some("smb://server/".to_string()));
    assert_eq!(walk.listed(true), ListingStep::Proceed);
    walk.push("smb://server/share/".to_string());
    walk.push("smb://server/".to_string());
    assert_eq!(walk.next(), Some("smb://server/share/".to_string()));
    walk.push("smb://server/share/".to_string());
    assert_eq!(walk.next(), None);
}

#[test]
fn only_the_start_failing_fails_the_search() {
    let mut walk = NetworkWalk::new("smb://a/".to_string());
    walk.next();
    assert_eq!(walk.listed(false), ListingStep::Fail);
    let mut walk = NetworkWalk::new("smb://a/".to_string());
    walk.next();
    assert_eq!(walk.listed(true), ListingStep::Proceed);
    walk.push("smb://a/b/".to_string());
    walk.next();
    assert_eq!(walk.listed(false), ListingStep::Skip);
}

#[test]
fn hidden_entries_need_show_hidden() {
    assert!(!entry_shown(".secret", false, false));
    assert!(entry_shown(".secret", false, true));
    assert!(!entry_shown("plain", true, false));
    assert!(entry_shown("plain", false, false));
}
