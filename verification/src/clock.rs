//! The wall clock, behind one trusted call.
//!
//! Every function whose contract mentions time takes the timestamp as an
//! argument and is verified for every value of it; this wrapper only
//! supplies the argument at the outermost callers.

use vstd::prelude::*;

verus! {

/// Relies on chrono's `Utc::now` and `DateTime::timestamp_millis`: the
/// current wall-clock time as unix milliseconds. The value depends on
/// the machine's clock, so nothing is promised of it.
#[verifier::external_body]
pub fn now_millis() -> i64 {
    chrono::Utc::now().timestamp_millis()
}

} // verus!
