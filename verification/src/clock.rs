//! The process-wide time source that all sampling derives its entropy from.

use vstd::prelude::*;

verus! {

/// Relies on chrono's `Utc::now`, `DateTime::time` and the `Display` of
/// `NaiveTime`: renders the current time of day as text
/// (`%H:%M:%S%.f`). The text depends on the moment of the call, so nothing
/// is promised of it; callers must handle every string, including one that
/// does not end in a digit.
#[verifier::external_body]
pub(crate) fn now_time_text() -> String {
    chrono::Utc::now().time().to_string()
}

} // verus!
