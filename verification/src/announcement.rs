//! Announcements shown to the user. Fetching them over the network is the
//! caller's; the library only fixes their shape and which language is
//! requested.

use vstd::prelude::*;
use crate::text::{chars_of, range_equals};

verus! {

/// One announcement, as served.
#[derive(Debug, Clone)]
pub struct Announcement {
    pub title: String,
    pub content: String,
}

/// The language code requested for a user language: Chinese for any
/// language tag starting with `zh`, English otherwise.
pub open spec fn lang_code(lang: Seq<char>) -> Seq<char> {
    if lang.len() >= 2 && lang.subrange(0, 2) == "zh"@ {
        "zh"@
    } else {
        "en"@
    }
}

pub fn announcement_lang_code(lang: &str) -> (r: &'static str)
    ensures
        r@ == lang_code(lang@),
{
    let v = chars_of(lang);
    if v.len() >= 2 && range_equals(&v, 0, 2, &chars_of("zh")) {
        "zh"
    } else {
        "en"
    }
}

} // verus!
