//! Wall-clock readings for timestamps and latency accounting.

use vstd::prelude::*;

verus! {

/// Relies on `chrono::Utc::now` and `DateTime::timestamp_millis`: the
/// current wall-clock time in milliseconds since the Unix epoch. The
/// clock may move arbitrarily between calls, so nothing is promised of
/// the value.
#[verifier::external_body]
pub(crate) fn now_millis() -> i64 {
    chrono::Utc::now().timestamp_millis()
}

} // verus!
