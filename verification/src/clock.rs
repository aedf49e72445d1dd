//! The wall clock. Times are microseconds since the Unix epoch, in UTC.

use vstd::prelude::*;

verus! {

/// `chrono::Utc::now`, as microseconds since the epoch. Nothing is known of
/// the reading: two readings may be equal, and a later one may be smaller.
#[verifier::external_body]
pub(crate) fn now_micros() -> i64 {
    chrono::Utc::now().timestamp_micros()
}

} // verus!
