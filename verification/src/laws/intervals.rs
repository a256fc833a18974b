//! Laws of intervals.
use vstd::prelude::*;

use crate::interval::Interval;

verus! {

/// The length of an interval in nanoseconds, read off its two parts.
pub open spec fn lasts(interval: Interval, secs: u64, nanos: u32) -> bool {
    &&& call_ensures(Interval::as_secs, (&interval,), secs)
    &&& call_ensures(Interval::subsec_nanos, (&interval,), nanos)
}

/// An interval made of seconds and nanoseconds has those seconds and
/// nanoseconds.
pub proof fn parts_are_kept(secs: u64, nanos: u32, interval: Interval, s: u64, n: u32)
    requires
        nanos < 1_000_000_000,
        call_ensures(Interval::from_parts, (secs, nanos), interval),
        lasts(interval, s, n),
    ensures
        s == secs,
        n == nanos,
{
    let total = interval.total_nanos();
    assert(total / 1_000_000_000 == secs && total % 1_000_000_000 == nanos) by (nonlinear_arith)
        requires
            total == secs * 1_000_000_000 + nanos,
            nanos < 1_000_000_000,
    ;
}

/// Whole seconds and milliseconds are kept.
pub proof fn seconds_and_milliseconds_are_kept(
    secs: u64,
    interval: Interval,
    s: u64,
    n: u32,
    millis: u64,
    other: Interval,
    m: u128,
)
    requires
        call_ensures(Interval::from_secs, (secs,), interval),
        lasts(interval, s, n),
        call_ensures(Interval::from_millis, (millis,), other),
        call_ensures(Interval::as_millis, (&other,), m),
    ensures
        s == secs && n == 0,
        m == millis,
{
    let total = interval.total_nanos();
    assert(total / 1_000_000_000 == secs && total % 1_000_000_000 == 0) by (nonlinear_arith)
        requires
            total == secs * 1_000_000_000,
    ;
    let length = other.total_nanos();
    assert(length / 1_000_000 == millis) by (nonlinear_arith)
        requires
            length == millis * 1_000_000,
    ;
}

/// Intervals are compared by their length: first by seconds, then by
/// nanoseconds.
pub proof fn intervals_are_compared_by_length(
    a: Interval,
    b: Interval,
    sa: u64,
    na: u32,
    sb: u64,
    nb: u32,
    longer: bool,
    zero: bool,
)
    requires
        lasts(a, sa, na),
        lasts(b, sb, nb),
        call_ensures(Interval::exceeds, (&a, &b), longer),
        call_ensures(Interval::is_zero, (&a,), zero),
    ensures
        longer <==> sa > sb || (sa == sb && na > nb),
        zero <==> sa == 0 && na == 0,
{
    let x = a.total_nanos();
    let y = b.total_nanos();
    assert(x == 1_000_000_000 * (x / 1_000_000_000) + x % 1_000_000_000) by (nonlinear_arith);
    assert(y == 1_000_000_000 * (y / 1_000_000_000) + y % 1_000_000_000) by (nonlinear_arith);
    assert(x % 1_000_000_000 < 1_000_000_000) by (nonlinear_arith);
    assert(y % 1_000_000_000 < 1_000_000_000) by (nonlinear_arith);
}

/// A moment is reached when the length has passed since the start.
pub proof fn moments_are_reached(now: Interval, start: Interval, length: Interval, reached: bool)
    requires
        call_ensures(Interval::reaches, (&now, &start, &length), reached),
    ensures
        reached <==> start.total_nanos() + length.total_nanos() <= now.total_nanos(),
{
}

/// Doubling stops at the cap.
pub proof fn doubling_stops_at_the_cap(interval: Interval, cap: Interval, result: Interval)
    requires
        call_ensures(Interval::doubled_up_to, (&interval, &cap), result),
    ensures
        result.total_nanos() <= cap.total_nanos(),
        result.total_nanos() == 2 * interval.total_nanos() || result.total_nanos()
            == cap.total_nanos(),
        2 * interval.total_nanos() <= cap.total_nanos() ==> result.total_nanos() == 2
            * interval.total_nanos(),
{
}

} // verus!
