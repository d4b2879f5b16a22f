//! Settings owned by this edition of the application, kept apart from the
//! main settings file. Reading and writing the stores is the caller's.

use vstd::prelude::*;

verus! {

/// The edition's own settings: only the stored wallpaper path so far.
#[derive(Debug, Clone)]
pub struct CESettings {
    pub wallpaper_path: Option<String>,
}

impl Default for CESettings {
    fn default() -> (r: Self)
        ensures
            r.wallpaper_path is None,
    {
        CESettings { wallpaper_path: None }
    }
}

} // verus!
