//! The current time, as the scheduler reads it.

use vstd::prelude::*;

verus! {

/// `chrono::Utc::now().timestamp()`: the current time in Unix seconds. It
/// comes from the clock, so nothing is claimed of it.
#[verifier::external_body]
pub(crate) fn unix_now() -> (t: i64) {
    chrono::Utc::now().timestamp()
}

} // verus!
