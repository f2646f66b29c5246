//! Wall-clock reading for the constructors that stamp records.

use vstd::prelude::*;

verus! {

/// Relies on chrono's `Utc::now` and `DateTime::timestamp`: reads the wall
/// clock as whole seconds since the Unix epoch. Nothing is promised of the
/// value; the clock is no function of the program's state, and every caller
/// is verified for every value it may hand back.
#[verifier::external_body]
pub(crate) fn current_timestamp() -> i64 {
    chrono::Utc::now().timestamp()
}

} // verus!
