use cosmic_files::thumbnail::{thumbnail_cache_relative_path, CachedThumbnail, FileStamp, ThumbnailSize};

// The grid icon is 320 logical pixels: 320 pixels at scale 1, 640 at scale 2.
fn cache_path_at(file_uri: &str, pixel_size: u32) -> String {
    thumbnail_cache_relative_path(file_uri, ThumbnailSize::from_pixel_size(pixel_size))
}

#[test]
fn a_thumbnail_cached_for_one_scale_does_not_overwrite_another() {
    let uri = "file:///home/shylo/holiday.jpg";
    assert_ne!(cache_path_at(uri, 320), cache_path_at(uri, 640));
}

#[test]
fn the_same_file_at_the_same_scale_reuses_one_cache_entry() {
    let uri = "file:///home/shylo/holiday.jpg";
    assert_eq!(cache_path_at(uri, 640), cache_path_at(uri, 640));
    assert_ne!(cache_path_at(uri, 640), cache_path_at("file:///home/shylo/other.jpg", 640));
}

#[test]
fn a_cache_entry_names_the_size_it_holds() {
    let uri = "file:///home/shylo/holiday.jpg";
    assert!(std::path::Path::new(&cache_path_at(uri, 320)).starts_with(ThumbnailSize::XLarge.subdirectory_name()));
    assert!(std::path::Path::new(&cache_path_at(uri, 640)).starts_with(ThumbnailSize::XXLarge.subdirectory_name()));
}

#[test]
fn cache_file_name_is_md5_of_uri_in_hex() {
    // md5("file:///home/shylo/holiday.jpg") as lower-case hex, then ".png".
    let name = cosmic_files::thumbnail::thumbnail_cache_filename("file:///home/shylo/holiday.jpg");
    assert_eq!(name.len(), 32 + 4);
    assert!(name.ends_with(".png"));
    assert!(name[..32].chars().all(|c| c.is_ascii_hexdigit() && !c.is_ascii_uppercase()));
    assert_ne!(name, cosmic_files::thumbnail::thumbnail_cache_filename("file:///other"));
}

#[test]
fn pixel_sizes_pick_the_smallest_size_that_holds_them() {
    assert_eq!(ThumbnailSize::from_pixel_size(1), ThumbnailSize::Normal);
    assert_eq!(ThumbnailSize::from_pixel_size(128), ThumbnailSize::Normal);
    assert_eq!(ThumbnailSize::from_pixel_size(129), ThumbnailSize::Large);
    assert_eq!(ThumbnailSize::from_pixel_size(512), ThumbnailSize::XLarge);
    assert_eq!(ThumbnailSize::from_pixel_size(5000), ThumbnailSize::XXLarge);
    assert_eq!(ThumbnailSize::XXLarge.pixel_size(), 1024);
}

fn cacher() -> cosmic_files::thumbnail::ThumbnailCacher {
    cosmic_files::thumbnail::ThumbnailCacher::new(
        "/home/shylo/holiday.jpg",
        "/home/shylo/holiday.jpg",
        Some("/home/shylo/.cache/thumbnails"),
        ThumbnailSize::Large,
        "1.0",
    )
    .ok()
    .unwrap()
}

#[test]
fn a_cacher_places_thumbnail_and_fail_marker() {
    let c = cacher();
    assert_eq!(c.file_uri(), "file:///home/shylo/holiday.jpg");
    let name = cosmic_files::thumbnail::thumbnail_cache_filename(c.file_uri());
    assert_eq!(c.thumbnail_path(), format!("/home/shylo/.cache/thumbnails/large/{name}"));
    assert_eq!(c.fail_marker_path(), format!("/home/shylo/.cache/thumbnails/fail/cosmic-files-1.0/{name}"));
    assert!(cosmic_files::thumbnail::ThumbnailCacher::new("/a", "/a", None, ThumbnailSize::Large, "1").is_err());
}

#[test]
fn cached_thumbnails_are_checked_against_the_file() {
    let c = cacher();
    let stamp = Some(FileStamp { mtime_secs: Some(1700000000), size: 42 });
    let mut texts = vec![
        ("Thumb::URI".to_string(), "file:///home/shylo/holiday.jpg".to_string()),
        ("Thumb::MTime".to_string(), "1700000000".to_string()),
    ];
    assert!(c.is_thumbnail_valid(&texts, stamp));
    texts.push(("Thumb::Size".to_string(), "41".to_string()));
    assert!(!c.is_thumbnail_valid(&texts, stamp));
    assert!(!c.is_thumbnail_valid(&texts[..1].to_vec(), stamp));
    assert!(!c.is_thumbnail_valid(&texts[..2].to_vec(), None));
    assert!(matches!(c.get_cached_thumbnail(true, true, false), CachedThumbnail::Valid(_, Some(ThumbnailSize::Large))));
    assert!(matches!(c.get_cached_thumbnail(true, false, true), CachedThumbnail::Failed));
    assert!(matches!(c.get_cached_thumbnail(true, false, false), CachedThumbnail::RequiresUpdate(ThumbnailSize::Large)));
}
