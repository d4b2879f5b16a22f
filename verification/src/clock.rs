//! Wall-clock readings, taken through `chrono`. The clock is not a function
//! of anything the library can see, so these wrappers promise only the shape
//! of the text they return, never its value.

use vstd::prelude::*;

verus! {

/// Relies on `chrono::Local::now` and `DateTime::to_rfc3339`: the current
/// local time as an RFC 3339 / ISO 8601 string.
#[verifier::external_body]
pub fn now_rfc3339() -> (r: String) {
    chrono::Local::now().to_rfc3339()
}

/// Relies on `chrono::Local::now` and `DateTime::format` with
/// `"%Y-%m-%d %H:%M:%S"`: every field is zero-padded, the year to at least
/// four digits, so the text is at least 19 characters long.
#[verifier::external_body]
pub fn now_file_stamp() -> (r: String)
    ensures
        r@.len() >= 19,
{
    chrono::Local::now().format("%Y-%m-%d %H:%M:%S").to_string()
}

/// Relies on `chrono::Local::now` and `DateTime::format` with `"%H:%M:%S"`:
/// hours, minutes and seconds are zero-padded to two digits each, so the
/// text is exactly 8 characters long.
#[verifier::external_body]
pub fn now_hms() -> (r: String)
    ensures
        r@.len() == 8,
{
    chrono::Local::now().format("%H:%M:%S").to_string()
}

} // verus!
