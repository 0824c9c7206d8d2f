//! When the background task advances the grid: a fixed period derived from
//! the configured update rate.
use vstd::prelude::*;

verus! {

/// Milliseconds between two generations at `updates_per_second` updates per
/// second, rounded down.
pub fn update_period_millis(updates_per_second: u16) -> (r: u64)
    requires
        updates_per_second > 0,
    ensures
        r == 1000int / (updates_per_second as int),
{
    1000 / (updates_per_second as u64)
}

/// Whether the next generation is due, `elapsed_nanos` after the last one,
/// when generations are `period_millis` apart: only once the period has been
/// exceeded.
pub fn update_due(elapsed_nanos: u128, period_millis: u64) -> (r: bool)
    ensures
        r == (elapsed_nanos > period_millis * 1_000_000int),
{
    elapsed_nanos > (period_millis as u128) * 1_000_000
}

} // verus!
