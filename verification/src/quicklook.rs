//! Which renderer owns a file's preview when the system thumbnailing
//! service is available: text and the image formats with a built-in decoder
//! stay with the built-in renderers, everything else goes to the service.

use vstd::prelude::*;
use crate::text::str_equal;

verus! {

/// Which representations the thumbnail generator may return.
#[derive(Clone, Copy, Debug, PartialEq, Eq, Structural)]
pub enum Representation {
    /// Only a real rendering of the file's contents.
    Thumbnail,
    /// Any representation, an icon badged with the file type included.
    IconOrThumbnail,
}

/// The image subtypes that the built-in decoder handles, and SVG, which has
/// its own renderer (a MIME subtype arrives without its `+xml` suffix).
pub open spec fn spec_builtin_image_subtype(s: Seq<char>) -> bool {
    ||| s == "apng"@
    ||| s == "avif"@
    ||| s == "bmp"@
    ||| s == "farbfeld"@
    ||| s == "gif"@
    ||| s == "jpeg"@
    ||| s == "jxl"@
    ||| s == "png"@
    ||| s == "qoi"@
    ||| s == "svg"@
    ||| s == "tiff"@
    ||| s == "vnd.microsoft.icon"@
    ||| s == "vnd.radiance"@
    ||| s == "webp"@
    ||| s == "x-bmp"@
    ||| s == "x-exr"@
    ||| s == "x-icon"@
    ||| s == "x-portable-anymap"@
    ||| s == "x-portable-bitmap"@
    ||| s == "x-portable-graymap"@
    ||| s == "x-portable-pixmap"@
    ||| s == "x-qoi"@
    ||| s == "x-tga"@
    ||| s == "x-tiff"@
}

/// Whether an image subtype is one that the built-in renderers handle.
pub fn is_builtin_image_subtype(subtype: &str) -> (r: bool)
    ensures
        r == spec_builtin_image_subtype(subtype@),
{
    str_equal(subtype, "apng") || str_equal(subtype, "avif") || str_equal(subtype, "bmp")
        || str_equal(subtype, "farbfeld") || str_equal(subtype, "gif") || str_equal(subtype, "jpeg")
        || str_equal(subtype, "jxl") || str_equal(subtype, "png") || str_equal(subtype, "qoi")
        || str_equal(subtype, "svg") || str_equal(subtype, "tiff")
        || str_equal(subtype, "vnd.microsoft.icon") || str_equal(subtype, "vnd.radiance")
        || str_equal(subtype, "webp") || str_equal(subtype, "x-bmp") || str_equal(subtype, "x-exr")
        || str_equal(subtype, "x-icon") || str_equal(subtype, "x-portable-anymap")
        || str_equal(subtype, "x-portable-bitmap") || str_equal(subtype, "x-portable-graymap")
        || str_equal(subtype, "x-portable-pixmap") || str_equal(subtype, "x-qoi")
        || str_equal(subtype, "x-tga") || str_equal(subtype, "x-tiff")
}

/// Whether the thumbnailing service, rather than a built-in renderer, owns
/// the preview of a MIME type given by its type and subtype: never for text,
/// for images only where no built-in decoder applies, always otherwise.
pub fn owns_preview(type_: &str, subtype: &str) -> (r: bool)
    ensures
        r == if type_@ == "text"@ {
            false
        } else if type_@ == "image"@ {
            !spec_builtin_image_subtype(subtype@)
        } else {
            true
        },
{
    if str_equal(type_, "text") {
        false
    } else if str_equal(type_, "image") {
        !is_builtin_image_subtype(subtype)
    } else {
        true
    }
}

/// Whether a failed request for a real rendering is worth retrying with any
/// representation: only images carry an embedded preview in their icon.
pub fn allows_icon_fallback(type_: &str) -> (r: bool)
    ensures
        r == (type_@ == "image"@),
{
    str_equal(type_, "image")
}

} // verus!
