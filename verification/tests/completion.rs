use cosmic_files::completion::tab_completions;
use cosmic_files::search::SearchPattern;

fn names(v: &[&str]) -> Vec<String> {
    v.iter().map(|s| s.to_string()).collect()
}

#[test]
fn completions_are_case_insensitive_prefixes_in_name_order() {
    let n = names(&["Documents", "downloads", "Desktop", "music", "do.c"]);
    let ranks = vec![2, 3, 1, 4, 0];
    let got = tab_completions("/home/u/do", &n, &ranks).unwrap();
    assert_eq!(
        got,
        vec![
            ("do.c".to_string(), "/home/u/do.c".to_string()),
            ("Documents".to_string(), "/home/u/Documents".to_string()),
            ("downloads".to_string(), "/home/u/downloads".to_string()),
        ]
    );
}

#[test]
fn the_typed_part_is_matched_literally() {
    // A dot in what was typed is no wildcard.
    let n = names(&["axb", "a.b"]);
    let got = tab_completions("/x/a.", &n, &vec![0, 1]).unwrap();
    assert_eq!(got, vec![("a.b".to_string(), "/x/a.b".to_string())]);
}

#[test]
fn at_most_eight_completions_are_offered() {
    let n: Vec<String> = (0..12).map(|i| format!("f{i:02}")).collect();
    let ranks: Vec<u64> = (0..12).rev().collect();
    let got = tab_completions("/d/f", &n, &ranks).unwrap();
    assert_eq!(got.len(), 8);
    assert_eq!(got[0].0, "f11");
    assert_eq!(got[7].0, "f04");
}

#[test]
fn a_path_without_a_folder_has_no_completions() {
    assert_eq!(tab_completions("/", &names(&["a"]), &vec![0]), None);
    assert_eq!(tab_completions("", &names(&["a"]), &vec![0]), None);
}

#[test]
fn normal_uses_glob_syntax() {
    let p = SearchPattern::compile("*.{rs,toml}", false).unwrap();
    assert_eq!(p.filename_matches("main.rs"), Some(true));
    assert_eq!(p.filename_matches("Cargo.toml"), Some(true));
    assert_eq!(p.filename_matches("main.py"), Some(false));
}

#[test]
fn raw_uses_regex() {
    let p = SearchPattern::compile(r"^file-[0-9]+\.rs$", true).unwrap();
    assert_eq!(p.filename_matches("file-42.rs"), Some(true));
    assert_eq!(p.filename_matches("file-x.rs"), Some(false));
}

#[test]
fn plain_search_terms_are_matched_literally_ignoring_case() {
    let p = SearchPattern::compile("a.b", false).unwrap();
    assert_eq!(p.text_matches("xx A.B yy"), Some(true));
    assert_eq!(p.text_matches("axb"), Some(false));
    assert_eq!(p.filename_matches("A.B"), Some(true));
    assert_eq!(p.filename_matches("axb"), Some(false));
    assert!(SearchPattern::compile("[", false).is_none());
    assert!(SearchPattern::compile("(unclosed", true).is_none());
    assert!(SearchPattern::compile("(unclosed", false).is_some());
}

#[test]
fn literal_terms_escape_pattern_characters() {
    let p = SearchPattern::compile("a.b(c)%", false).unwrap();
    assert_eq!(p.text, "a\\.b\\(c\\)%");
    let raw = SearchPattern::compile("a.b", true).unwrap();
    assert_eq!(raw.text, "a.b");
}
