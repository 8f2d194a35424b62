use vstd::prelude::*;

verus! {

/// An instant, in microseconds since the Unix epoch (UTC).
pub type Timestamp = i64;

/// The current time: `chrono::Utc::now()`, converted by
/// `DateTime::timestamp_micros`.
///
/// Trusted: `Utc::now` measures the system clock from the Unix epoch and
/// panics when the clock is set before it, so a reading that returns is not
/// negative. Which instant is read, and how readings relate to each other,
/// is not stated: the clock may be set back.
#[verifier::external_body]
pub(crate) fn now() -> (t: Timestamp)
    ensures
        t >= 0,
{
    chrono::Utc::now().timestamp_micros()
}

} // verus!
