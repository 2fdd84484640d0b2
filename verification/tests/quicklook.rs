use cosmic_files::quicklook::{allows_icon_fallback, is_builtin_image_subtype, owns_preview, Representation};

/// The type and subtype of a MIME type, the subtype without its `+` suffix.
fn parts(mime: &str) -> (&str, &str) {
    let (t, rest) = mime.split_once('/').unwrap();
    let s = rest.split('+').next().unwrap();
    (t, s)
}

#[test]
fn owns_preview_leaves_text_and_decodable_images_alone() {
    for decodable in [
        "text/plain",
        "text/markdown",
        "image/png",
        "image/jpeg",
        "image/gif",
        "image/webp",
        "image/svg+xml",
        "image/avif",
    ] {
        let (t, s) = parts(decodable);
        assert!(!owns_preview(t, s), "{decodable} should be rendered by the built-in path");
    }
}

#[test]
fn owns_preview_claims_documents_media_and_undecodable_images() {
    for claimed in [
        "application/pdf",
        "application/vnd.openxmlformats-officedocument.wordprocessingml.document",
        "application/vnd.apple.keynote",
        "video/mp4",
        "video/quicktime",
        "image/heic",
        "image/heif",
        "image/x-canon-cr2",
        "image/x-adobe-dng",
    ] {
        let (t, s) = parts(claimed);
        assert!(owns_preview(t, s), "{claimed} should be rendered by Quick Look");
    }
}

#[test]
fn icon_fallback_is_only_offered_to_images() {
    assert!(allows_icon_fallback(parts("image/heic").0));
    assert!(allows_icon_fallback(parts("image/png").0));
    assert!(!allows_icon_fallback(parts("application/pdf").0));
    assert!(!allows_icon_fallback(parts("video/mp4").0));
    assert!(!allows_icon_fallback(parts("application/x-sharedlib").0));
}

#[test]
fn builtin_subtypes_are_matched_whole() {
    assert!(is_builtin_image_subtype("x-portable-pixmap"));
    assert!(is_builtin_image_subtype("vnd.microsoft.icon"));
    assert!(!is_builtin_image_subtype("pn"));
    assert!(!is_builtin_image_subtype("pngx"));
    assert!(!is_builtin_image_subtype(""));
    // Text never goes to the service, whatever its subtype.
    assert!(!owns_preview("text", "heic"));
    assert_ne!(Representation::Thumbnail, Representation::IconOrThumbnail);
}
