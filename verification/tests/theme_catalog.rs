use cosmic_files::theme_catalog::{theme_name, ThemeCatalog};

fn scan(dirs: &[&[&str]]) -> Vec<String> {
    let mut catalog = ThemeCatalog::new();
    for dir in dirs {
        for path in dir.iter() {
            if let Some(name) = theme_name(path) {
                if !catalog.contains(&name) {
                    catalog.insert(name);
                }
            }
        }
    }
    catalog.names().clone()
}

const VENDORED: &[&str] = &[
    "/res/themes/cosmic/System76 Light.ron",
    "/res/themes/cosmic/Forest Dark.ron",
    "/res/themes/cosmic/README.md",
    "/res/themes/cosmic/HP Dev One.ron",
    "/res/themes/cosmic/System76 Dark.ron",
];

#[test]
fn discovery_names_themes_by_file_stem() {
    let names = scan(&[VENDORED]);
    assert_eq!(names, ["Forest Dark", "HP Dev One", "System76 Dark", "System76 Light"]);
}

#[test]
fn earlier_directories_shadow_later_ones() {
    let found = scan(&[&[], VENDORED]);
    assert_eq!(found.len(), 4);
    let twice = scan(&[VENDORED, VENDORED]);
    assert_eq!(twice.len(), 4, "a name seen already is not added again");
}

#[test]
fn insert_reports_position_or_shadowing() {
    let mut c = ThemeCatalog::new();
    assert_eq!(c.insert("b".into()), Some(0));
    assert_eq!(c.insert("a".into()), Some(0));
    assert_eq!(c.insert("c".into()), Some(2));
    assert_eq!(c.insert("b".into()), None);
    assert_eq!(c.names(), &["a", "b", "c"]);
    assert!(c.contains("c"));
    assert!(!c.contains("d"));
    assert_eq!(theme_name("/x/y.txt"), None);
    assert_eq!(theme_name("/x/Z.ron"), Some("Z".to_string()));
}

#[test]
fn themes_are_found_by_name() {
    let mut catalog = ThemeCatalog::new();
    catalog.insert("Nord".to_string());
    catalog.insert("Dracula".to_string());
    assert_eq!(catalog.get("Dracula"), Some(0));
    assert_eq!(catalog.get("Nord"), Some(1));
    assert_eq!(catalog.get("Solarized"), None);
}

#[test]
fn repeated_directories_give_the_same_catalog() {
    let once: Vec<String> = ["Nord", "Dracula", "Nord"].iter().map(|s| s.to_string()).collect();
    let twice: Vec<String> = once.iter().chain(once.iter()).cloned().collect();
    let a = ThemeCatalog::from_names(&once);
    let b = ThemeCatalog::from_names(&twice);
    assert_eq!(a.names(), b.names());
    assert_eq!(a.names(), &vec!["Dracula".to_string(), "Nord".to_string()]);
}

#[test]
fn loading_keeps_the_first_readable_theme_of_each_name() {
    let files: Vec<(String, bool)> = vec![
        ("/a/Nord.ron".to_string(), true),
        ("/a/Broken.ron".to_string(), false),
        ("/a/notes.txt".to_string(), true),
        ("/b/Nord.ron".to_string(), true),
        ("/b/Broken.ron".to_string(), true),
        ("/b/Dracula.ron".to_string(), true),
    ];
    let (catalog, sources) = cosmic_files::theme_catalog::load_from(&files);
    assert_eq!(catalog.names(), &vec!["Broken".to_string(), "Dracula".to_string(), "Nord".to_string()]);
    assert_eq!(sources, vec!["/b/Broken.ron".to_string(), "/b/Dracula.ron".to_string(), "/a/Nord.ron".to_string()]);
    let twice: Vec<(String, bool)> = files.iter().chain(files.iter()).cloned().collect();
    let (again, sources_again) = cosmic_files::theme_catalog::load_from(&twice);
    assert_eq!(again.names(), catalog.names());
    assert_eq!(sources_again, sources);
}
