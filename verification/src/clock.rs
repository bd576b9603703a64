//! The one reading of the wall clock, and the noise word drawn from it
//! for the synthetic quote path.

use vstd::prelude::*;

verus! {

/// Relies on chrono::Utc::now and chrono::DateTime::timestamp: the
/// current wall time as Unix seconds. Nothing is promised of a clock
/// reading. Note that chrono's now panics on a system clock set before
/// the Unix epoch.
#[verifier::external_body]
pub fn now_unix_seconds() -> i64 {
    chrono::Utc::now().timestamp()
}

/// One multiplicative scrambling step (a linear congruential generator),
/// so that consecutive clock readings spread across the whole range.
pub fn scramble(x: u64) -> (r: u64)
    ensures
        r as int == (x as int * 6364136223846793005 + 1442695040888963407)
            % 18446744073709551616,
{
    let w: u128 = (x as u128) * 6364136223846793005 + 1442695040888963407;
    (w % 18446744073709551616u128) as u64
}

/// A fresh noise word for the synthetic quote path, scrambled from the
/// clock. Like the clock itself it promises nothing of its value: every
/// caller is verified for every value it may take.
pub fn fresh_noise() -> u64 {
    let t = now_unix_seconds();
    let u: u64 = #[verifier::truncate] (t as u64);
    scramble(u)
}

} // verus!
