//! Clock-value helpers.

use vstd::prelude::*;

verus! {

/// Splits a millisecond count into whole seconds and the nanosecond
/// remainder — the pair a civil-time library builds an instant from.
pub fn utc_from_millis(millis: u64) -> (r: (i64, u32))
    ensures
        r.0 == millis as int / 1000,
        r.1 == (millis as int % 1000) * 1_000_000,
{
    proof {
        assert(millis as int / 1000 <= millis as int) by (nonlinear_arith);
    }
    let secs = (millis / 1_000) as i64;
    let nsecs = ((millis % 1_000) * 1_000_000) as u32;
    (secs, nsecs)
}

} // verus!
