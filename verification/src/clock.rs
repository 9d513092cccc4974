//! The supervisor's one view of the wall clock.

use vstd::prelude::*;

verus! {

/// The current UTC time, RFC 3339 formatted.
///
/// Relies on chrono's `From<SystemTime>` conversion, which covers a
/// clock before the Unix epoch without panicking, and on
/// `DateTime::to_rfc3339`; the result depends on the clock, so nothing
/// is promised of it.
#[verifier::external_body]
pub(crate) fn now_rfc3339() -> String {
    let now: chrono::DateTime<chrono::Utc> = std::time::SystemTime::now().into();
    now.to_rfc3339()
}

} // verus!
