use cosmic_files::large_image::{try_decode_pdf, LargeImageManager};
use cosmic_files::pdf_preview::{is_pdf_mime, pdf_preview_outcome, temp_file_prefix, PdfPreviewError};

fn split(mime: &str) -> (&str, &str) {
    let (t, s) = mime.split_once('/').unwrap();
    (t, s)
}

#[test]
fn is_pdf_mime_accepts_application_pdf() {
    let (t, s) = split("application/pdf");
    assert!(is_pdf_mime(t, s));
}

#[test]
fn is_pdf_mime_rejects_other_types() {
    for m in ["application/zip", "application/x-pdf", "text/plain", "image/png", "application/octet-stream"] {
        let (t, s) = split(m);
        assert!(!is_pdf_mime(t, s), "expected {} to not be pdf mime", m);
    }
}

#[test]
fn try_decode_pdf_returns_true_when_empty() {
    let mut m: LargeImageManager<Vec<u8>> = LargeImageManager::new();
    let path = "/tmp/test.pdf";
    assert!(try_decode_pdf(&mut m, path));
    assert!(m.is_decoding(path));
}

#[test]
fn try_decode_pdf_returns_false_when_already_decoding() {
    let mut m: LargeImageManager<Vec<u8>> = LargeImageManager::new();
    let path = "/tmp/test.pdf";
    assert!(try_decode_pdf(&mut m, path));
    assert!(!try_decode_pdf(&mut m, path));
}

#[test]
fn try_decode_pdf_returns_false_when_already_decoded() {
    let mut m: LargeImageManager<Vec<u8>> = LargeImageManager::new();
    let path = "/tmp/test.pdf";
    assert!(try_decode_pdf(&mut m, path));
    m.store_decoded_with_generation(path.to_string(), vec![0, 0, 0, 255], 0);
    assert!(!try_decode_pdf(&mut m, path));
    assert!(m.get_decoded(path).is_some());
}

#[test]
fn evince_gets_the_gnome_prefix() {
    assert_eq!(temp_file_prefix("evince-thumbnailer -s %s %u %o"), "gnome-desktop-");
    assert_eq!(temp_file_prefix("evince-thumbnailer"), "cosmic-files-");
    assert_eq!(temp_file_prefix("other %i %o"), "cosmic-files-");
}

#[test]
fn outcome_of_trying_thumbnailers() {
    assert_eq!(pdf_preview_outcome::<u8>(0, None), Err(PdfPreviewError::MissingThumbnailer));
    assert_eq!(pdf_preview_outcome::<u8>(2, None), Err(PdfPreviewError::Failed));
    assert_eq!(pdf_preview_outcome(1, Some(7u8)), Ok(7));
}
