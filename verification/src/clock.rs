use vstd::prelude::*;

verus! {

/// Relies on chrono's `Utc::now` and `DateTime::timestamp_millis`: the
/// current time as milliseconds since the Unix epoch. The value depends on
/// the machine's clock, so nothing is assumed of it; callers order the
/// ledger themselves. (`Utc::now` aborts if the system clock is set before
/// the Unix epoch.)
#[verifier::external_body]
pub(crate) fn now_millis() -> i64 {
    chrono::Utc::now().timestamp_millis()
}

} // verus!
