//! Wallpaper bookkeeping: which stored path is current, and how an image
//! file is described to the user interface. Copying, deleting and reading
//! the files themselves is the caller's.

use vstd::prelude::*;
use crate::text::str_eq;

verus! {

/// The stored wallpaper selection.
#[derive(Debug)]
pub struct WallpaperSettings {
    pub wallpaper_path: Option<String>,
}

/// The current wallpaper path, given whether the stored file still exists:
/// a stored path whose file is gone yields nothing and asks the caller to
/// reset the stored selection (the second component).
pub fn get_current_wallpaper(settings: &WallpaperSettings, file_exists: bool) -> (r: (
    Option<String>,
    bool,
))
    ensures
        settings.wallpaper_path is None ==> r.0 is None && !r.1,
        settings.wallpaper_path matches Some(p) ==> {
            &&& file_exists ==> (r.0 matches Some(q) && q@ == p@) && !r.1
            &&& !file_exists ==> r.0 is None && r.1
        },
{
    match &settings.wallpaper_path {
        Some(p) => {
            if file_exists {
                (Some(p.clone()), false)
            } else {
                (None, true)
            }
        },
        None => (None, false),
    }
}

/// The MIME label served for an image file extension; unknown extensions
/// fall back to JPEG.
pub open spec fn mime_label(ext: Seq<char>) -> Seq<char> {
    if ext == "png"@ {
        "image/png"@
    } else if ext == "jpg"@ || ext == "jpeg"@ {
        "image/jpeg"@
    } else if ext == "webp"@ {
        "image/webp"@
    } else if ext == "gif"@ {
        "image/gif"@
    } else {
        "image/jpeg"@
    }
}

pub fn mime_for_extension(ext: &str) -> (r: &'static str)
    ensures
        r@ == mime_label(ext@),
{
    if str_eq(ext, "png") {
        "image/png"
    } else if str_eq(ext, "jpg") || str_eq(ext, "jpeg") {
        "image/jpeg"
    } else if str_eq(ext, "webp") {
        "image/webp"
    } else if str_eq(ext, "gif") {
        "image/gif"
    } else {
        "image/jpeg"
    }
}

/// The data URL under which an encoded image is handed to the interface.
pub fn wallpaper_data_url(mime: &str, encoded: &str) -> (r: String)
    ensures
        r@ == "data:"@ + mime@ + ";base64,"@ + encoded@,
{
    let mut r = String::from_str("data:");
    r.append(mime);
    r.append(";base64,");
    r.append(encoded);
    r
}

} // verus!
