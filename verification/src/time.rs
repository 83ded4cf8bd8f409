use vstd::prelude::*;

verus! {

/// Largest magnitude, in whole seconds since the Unix epoch, of an instant
/// the library handles.  chrono documents that a `DateTime` spans roughly
/// the years -262144 to +262142; the second count of any such instant stays
/// well inside this bound, so sums and differences of a handful of instants
/// never overflow `i64`.
pub const MAX_TIMESTAMP_SECONDS: i64 = 9_000_000_000_000;

/// A point in time, as the timer logic reads it: the whole seconds since
/// the Unix epoch, used for duration arithmetic, together with the RFC 3339
/// rendering of the instant in the local time zone, the form in which
/// instants are persisted.
pub struct Timestamp {
    pub seconds: i64,
    pub rfc3339: String,
}

impl Timestamp {
    /// The second count is inside the range chrono can represent.
    pub open spec fn wf(&self) -> bool {
        -MAX_TIMESTAMP_SECONDS <= self.seconds <= MAX_TIMESTAMP_SECONDS
    }
}

} // verus!
