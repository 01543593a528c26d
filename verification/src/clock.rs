use vstd::prelude::*;

verus! {

/// Relies on time::OffsetDateTime::now_utc and time::OffsetDateTime::unix_timestamp:
/// the current wall-clock time in UTC, as whole seconds since the Unix epoch.
/// The result depends on the moment of the call, so nothing is promised of it.
#[verifier::external_body]
pub(crate) fn now_unix_timestamp() -> i64 {
    time::OffsetDateTime::now_utc().unix_timestamp()
}

} // verus!
