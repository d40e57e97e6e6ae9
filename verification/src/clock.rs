//! The time of day.

use vstd::prelude::*;

verus! {

/// The time since the start of 1970 by the machine's clock, in nanoseconds, by
/// `SystemTime::elapsed` on `UNIX_EPOCH`; nothing where the clock stands before it. What comes
/// back depends on the clock, so nothing is claimed of it.
#[verifier::external_body]
fn since_epoch() -> (r: Option<u128>) {
    std::time::UNIX_EPOCH.elapsed().ok().map(|elapsed| elapsed.as_nanos())
}

/// A time since the start of 1970, in units of so many nanoseconds; zero before it.
pub open spec fn unix_time(since_epoch_ns: Option<u128>, unit_ns: u128) -> u64 {
    match since_epoch_ns {
        Some(ns) => if ns as int / unit_ns as int > u64::MAX {
            u64::MAX
        } else {
            (ns as int / unit_ns as int) as u64
        },
        None => 0,
    }
}

/// A time since the start of 1970, in units of so many nanoseconds; zero before it.
pub fn unix_units(since_epoch_ns: Option<u128>, unit_ns: u128) -> (r: u64)
    requires
        unit_ns > 0,
    ensures
        r == unix_time(since_epoch_ns, unit_ns),
{
    match since_epoch_ns {
        Some(ns) => {
            let units: u128 = ns / unit_ns;
            if units > u64::MAX as u128 {
                u64::MAX
            } else {
                units as u64
            }
        },
        None => 0,
    }
}

/// The current time in milliseconds since the start of 1970.
pub fn now_unix_ms() -> (r: u64) {
    unix_units(since_epoch(), 1_000_000)
}

/// The current time in microseconds since the start of 1970.
pub fn now_unix_us() -> (r: u64) {
    unix_units(since_epoch(), 1_000)
}

/// A time is told in the whole units that have passed since the start of 1970, nothing before it,
/// and the largest number where they do not fit.
pub proof fn times_are_told_in_whole_units(ns: u128, unit_ns: u128)
    requires
        unit_ns > 0,
    ensures
        unix_time(None, unit_ns) == 0,
        ns < (u64::MAX + 1) * unit_ns ==> unix_time(Some(ns), unit_ns) * unit_ns <= ns < (unix_time(
            Some(ns),
            unit_ns,
        ) + 1) * unit_ns,
        ns >= (u64::MAX + 1) * unit_ns ==> unix_time(Some(ns), unit_ns) == u64::MAX,
{
    let n = ns as int;
    let u = unit_ns as int;
    let q = n / u;
    vstd::arithmetic::div_mod::lemma_fundamental_div_mod(n, u);
    assert(u * q == q * u) by (nonlinear_arith);
    assert((q + 1) * u == q * u + u) by (nonlinear_arith);
    assert(q >= 0) by (nonlinear_arith)
        requires
            n >= 0,
            u > 0,
            q == n / u,
    ;
    if n < (u64::MAX + 1) * u {
        assert(q <= u64::MAX) by (nonlinear_arith)
            requires
                n < (u64::MAX + 1) * u,
                u > 0,
                q * u <= n,
        ;
    } else {
        assert(q > u64::MAX) by (nonlinear_arith)
            requires
                n >= (u64::MAX + 1) * u,
                u > 0,
                n < q * u + u,
        ;
    }
}

} // verus!
