use cosmic_files::search::{
    matches_file_type, matches_filter, needs_content, needs_mime, EntryFacts, MimeFacts, SearchDate, SearchFileType,
    SearchFileTypes, SearchFilter, SearchTextMatching,
};

fn mime(essence: &str) -> MimeFacts {
    MimeFacts { essence: essence.to_string(), generic_icon: None }
}

fn file(name_matches: bool, essence: Option<&str>) -> EntryFacts {
    EntryFacts {
        date_matches: true,
        filename_matches: name_matches,
        is_dir: false,
        is_file: true,
        len: 10,
        mime: essence.map(mime),
        custom_matches: vec![],
    }
}

#[test]
fn toggling_a_type_twice_restores_the_set() {
    let mut types = SearchFileTypes(0);
    types.toggle(SearchFileType::Images);
    assert!(types.contains(SearchFileType::Images));
    assert!(!types.contains(SearchFileType::Pdf));
    types.toggle(SearchFileType::Pdf);
    types.toggle(SearchFileType::Images);
    assert!(!types.contains(SearchFileType::Images));
    assert!(types.contains(SearchFileType::Pdf));
    types.toggle(SearchFileType::Pdf);
    assert!(types.is_empty());
}

#[test]
fn a_name_match_passes_without_filters() {
    let filter = SearchFilter::new();
    assert!(matches_filter(&filter, &file(true, None), false));
    assert!(!matches_filter(&filter, &file(false, Some("image/png")), true));
    assert!(matches_filter(&filter, &file(false, Some("text/plain")), true));
    assert!(!matches_filter(&filter, &file(false, Some("text/plain")), false));
}

#[test]
fn file_types_and_dates_narrow_the_matches() {
    let mut filter = SearchFilter::new();
    filter.file_types.toggle(SearchFileType::Images);
    assert!(matches_filter(&filter, &file(true, Some("image/png")), false));
    assert!(!matches_filter(&filter, &file(true, Some("text/plain")), false));
    assert!(!matches_filter(&filter, &file(true, None), false));
    let mut custom = file(true, Some("text/x-rust"));
    custom.custom_matches = vec![false, true];
    filter.custom_file_types = vec!["text/x-csrc".into(), "text/x-rust".into()];
    assert!(matches_filter(&filter, &custom, false));
    filter.date = Some(SearchDate::Today);
    let mut old = file(true, Some("image/png"));
    old.date_matches = false;
    assert!(!matches_filter(&filter, &old, false));
}

#[test]
fn mime_types_and_content_are_read_only_when_needed() {
    let mut filter = SearchFilter::new();
    assert!(!needs_mime(&filter, true, true));
    assert!(needs_mime(&filter, false, true));
    assert!(!needs_mime(&filter, false, false));
    filter.text_matching = SearchTextMatching::FilenameOnly;
    assert!(!needs_mime(&filter, false, true));
    filter.file_types.toggle(SearchFileType::Pdf);
    assert!(needs_mime(&filter, true, true));
    filter.raw_regex = true;
    assert!(!needs_mime(&filter, true, true));
    let filter = SearchFilter::new();
    assert!(needs_content(&filter, &file(false, Some("application/json"))));
    let mut big = file(false, Some("text/plain"));
    big.len = 5_000_000;
    assert!(!needs_content(&filter, &big));
    assert!(matches_file_type(true, &mime("inode/directory"), SearchFileType::Folders));
    assert!(!matches_file_type(true, &mime("image/png"), SearchFileType::Images));
}
