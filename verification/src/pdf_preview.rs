//! Large previews of PDF documents, rendered by a thumbnailer.

use vstd::prelude::*;
use crate::text::str_equal;
use crate::text::{starts_with, has_prefix};

verus! {

/// The size in pixels of a large PDF preview (its first page).
pub const PDF_PREVIEW_SIZE: u32 = 1024;

/// Why a PDF preview could not be made.
#[derive(Clone, Copy, Debug, PartialEq, Eq, Structural)]
pub enum PdfPreviewError {
    /// No PDF thumbnailer is installed.
    MissingThumbnailer,
    /// A thumbnailer was found but made no preview.
    Failed,
}

/// Whether a MIME type, by its type and subtype, is `application/pdf`.
pub fn is_pdf_mime(type_: &str, subtype: &str) -> (r: bool)
    ensures
        r == (type_@ == "application"@ && subtype@ == "pdf"@),
{
    str_equal(type_, "application") && str_equal(subtype, "pdf")
}

/// The prefix of the temporary file that a thumbnailer writes to: Evince's
/// thumbnailer may only write files named like GNOME's, others get the
/// application's own prefix.
pub fn temp_file_prefix(exec: &str) -> (r: &'static str)
    ensures
        r@ == if has_prefix(exec@, "evince-thumbnailer "@) {
            "gnome-desktop-"@
        } else {
            "cosmic-files-"@
        },
{
    if starts_with(exec, "evince-thumbnailer ") {
        "gnome-desktop-"
    } else {
        "cosmic-files-"
    }
}

/// The outcome of trying the thumbnailers in turn: a missing thumbnailer
/// when there is none, else the first preview made, else a failure.
pub fn pdf_preview_outcome<T>(thumbnailer_count: usize, first_preview: Option<T>) -> (r: Result<T, PdfPreviewError>)
    ensures
        thumbnailer_count == 0 ==> r == Err::<T, PdfPreviewError>(PdfPreviewError::MissingThumbnailer),
        thumbnailer_count > 0 ==> match first_preview {
            Some(p) => r == Ok::<T, PdfPreviewError>(p),
            None => r == Err::<T, PdfPreviewError>(PdfPreviewError::Failed),
        },
{
    if thumbnailer_count == 0 {
        return Err(PdfPreviewError::MissingThumbnailer);
    }
    match first_preview {
        Some(p) => Ok(p),
        None => Err(PdfPreviewError::Failed),
    }
}

} // verus!
