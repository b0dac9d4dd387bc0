use vstd::prelude::*;

verus! {

/// The current time in milliseconds since the Unix epoch, as
/// `chrono::Utc::now().timestamp_millis()` reads it from the system clock.
/// Nothing is promised of the value: it depends on the clock.
#[verifier::external_body]
pub fn now_millis() -> (r: i64)
{
    chrono::Utc::now().timestamp_millis()
}

/// The current time in whole seconds since the Unix epoch, as
/// `chrono::Utc::now().timestamp()` reads it from the system clock.
/// Nothing is promised of the value: it depends on the clock.
#[verifier::external_body]
pub fn now_secs() -> (r: i64)
{
    chrono::Utc::now().timestamp()
}

} // verus!
