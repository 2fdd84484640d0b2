use cosmic_files::icons::{folder_icon_name, trash_icon_name, SpecialDirs};

fn dirs() -> SpecialDirs {
    SpecialDirs {
        document: Some("/home/u/Documents".to_string()),
        download: Some("/home/u/Downloads".to_string()),
        audio: None,
        picture: Some("/home/u/Pictures".to_string()),
        public: None,
        template: None,
        video: None,
        desktop: Some("/home/u".to_string()),
        home: Some("/home/u".to_string()),
    }
}

#[test]
fn well_known_folders_have_their_own_icons() {
    let d = dirs();
    assert_eq!(folder_icon_name(&d, "/home/u/Documents", false), "folder-documents");
    assert_eq!(folder_icon_name(&d, "/home/u/Downloads/", false), "folder-download");
    assert_eq!(folder_icon_name(&d, "/home/u/Pictures", true), "folder-pictures-symbolic");
    assert_eq!(folder_icon_name(&d, "/home/u/Music", false), "folder");
    assert_eq!(folder_icon_name(&d, "/tmp", true), "folder-symbolic");
}

#[test]
fn the_home_folder_wins_over_a_desktop_at_the_same_path() {
    let d = dirs();
    assert_eq!(d.icon("/home/u"), Some("user-home"));
    assert_eq!(folder_icon_name(&d, "/home/u", false), "user-home");
}

#[test]
fn trash_icons_follow_emptiness() {
    assert_eq!(trash_icon_name(true, false), "user-trash");
    assert_eq!(trash_icon_name(true, true), "user-trash-symbolic");
    assert_eq!(trash_icon_name(false, false), "user-trash-full");
    assert_eq!(trash_icon_name(false, true), "user-trash-full-symbolic");
}
