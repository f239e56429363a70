//! The wall clock, read through chrono.
use vstd::prelude::*;

verus! {

/// Reads `std::time::SystemTime::now()`, takes its distance from the Unix
/// epoch (`duration_since`), and renders it with chrono's
/// `DateTime::from_timestamp` and `DateTime::to_rfc3339`. This is the path
/// of `chrono::Utc::now()` without its two panics: `None` when the system
/// clock is before 1970 or past the dates chrono can represent. The text
/// depends on the moment of the call, so nothing is promised of it.
#[verifier::external_body]
pub fn now_rfc3339() -> (r: Option<String>) {
    let since = std::time::SystemTime::now().duration_since(std::time::UNIX_EPOCH).ok()?;
    let at = chrono::DateTime::from_timestamp(since.as_secs() as i64, since.subsec_nanos())?;
    Some(at.to_rfc3339())
}

} // verus!
