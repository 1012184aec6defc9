//! The time now and fresh identifiers, which only the outside world supplies.

use vstd::prelude::*;

verus! {

/// Relies on `chrono::Utc::now` and `DateTime::timestamp_millis`: the current
/// instant in milliseconds since the Unix epoch. Nothing is promised of it.
#[verifier::external_body]
pub(crate) fn now_millis() -> (r: i64) {
    chrono::Utc::now().timestamp_millis()
}

/// Relies on `uuid::Uuid::new_v4` and its `Display`, which writes the
/// hyphenated form: 36 characters.
#[verifier::external_body]
pub(crate) fn new_log_id() -> (r: String)
    ensures
        r@.len() == 36,
{
    uuid::Uuid::new_v4().to_string()
}

} // verus!
