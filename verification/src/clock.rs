//! Arithmetic on readings of a monotonic clock.
//!
//! A reading is a count of nanoseconds since an origin that the caller fixes
//! once. Spans between readings saturate at zero: a span never runs backwards.

use vstd::prelude::*;

verus! {

/// Nanoseconds in one second.
pub const NANOS_PER_SEC: u64 = 1_000_000_000;

/// Seconds in one minute.
pub const SECS_PER_MIN: u64 = 60;

/// The period of the blink clock: 800 milliseconds, in nanoseconds.
pub const BLINK_NANOS: u64 = 800_000_000;

/// The span from `from` to `to`, zero where `to` is not later than `from`.
pub open spec fn span(from: int, to: int) -> int {
    if to >= from {
        to - from
    } else {
        0
    }
}

/// The number of seconds shown for a span of `d` nanoseconds: `d` rounded up
/// to a whole second, so that the last fraction of a second still shows as one.
pub open spec fn shown_secs(d: int) -> int {
    if d % (NANOS_PER_SEC as int) > 0 {
        d / (NANOS_PER_SEC as int) + 1
    } else {
        d / (NANOS_PER_SEC as int)
    }
}

/// The minutes and seconds shown for the span from `from` to `to`.
pub open spec fn min_sec(from: int, to: int) -> (int, int) {
    let s = shown_secs(span(from, to));
    (s / (SECS_PER_MIN as int), s % (SECS_PER_MIN as int))
}

/// The phase of the blink clock at `now`: the number of whole periods since
/// `start` is odd.
pub open spec fn phase_spec(start: int, now: int, period: int) -> bool {
    (span(start, now) / period) % 2 == 1
}

/// `a` divided by `b`, rounded up.
pub open spec fn ceil_div(a: int, b: int) -> int {
    (a + b - 1) / b
}

/// The span from `from` to `to` in nanoseconds, saturating at zero.
pub fn span_between(from: u64, to: u64) -> (d: u64)
    ensures
        d == span(from as int, to as int),
{
    if to >= from {
        to - from
    } else {
        0
    }
}

/// Minutes and seconds left from `from_time` until `to_time`, rounded up to a
/// whole second.
pub fn min_sec_until(from_time: u64, to_time: u64) -> (r: (u64, u64))
    ensures
        (r.0 as int, r.1 as int) == min_sec(from_time as int, to_time as int),
        r.1 < 60,
{
    let d: u64 = span_between(from_time, to_time);
    let whole: u64 = d / NANOS_PER_SEC;
    let secs: u64 = if d % NANOS_PER_SEC > 0 {
        whole + 1
    } else {
        whole
    };
    (secs / SECS_PER_MIN, secs % SECS_PER_MIN)
}

/// The phase of the blink clock at `now`, for a clock that started at `start`
/// and changes phase every `period` nanoseconds.
pub fn phase(start: u64, now: u64, period: u64) -> (on: bool)
    requires
        period > 0,
    ensures
        on == phase_spec(start as int, now as int, period as int),
{
    (span_between(start, now) / period) % 2 == 1
}

/// The seconds shown for a span are the span in seconds, rounded up: the least
/// number of whole seconds that cover it.
pub proof fn lemma_shown_secs_is_ceiling(d: int)
    requires
        d >= 0,
    ensures
        shown_secs(d) == ceil_div(d, NANOS_PER_SEC as int),
        shown_secs(d) * NANOS_PER_SEC >= d,
        d > 0 ==> (shown_secs(d) - 1) * NANOS_PER_SEC < d,
        d == 0 ==> shown_secs(d) == 0,
{
}

/// The minutes and seconds shown for a span add up to the seconds shown for
/// it, and the seconds stay below sixty.
pub proof fn lemma_min_sec_total(from: int, to: int)
    ensures
        0 <= min_sec(from, to).1 < 60,
        0 <= min_sec(from, to).0,
        min_sec(from, to).0 * 60 + min_sec(from, to).1 == shown_secs(span(from, to)),
{
}

/// After `k` whole periods the blink clock is on exactly if `k` is odd.
pub proof fn lemma_phase_alternates(start: int, k: int, period: int)
    requires
        k >= 0,
        period > 0,
    ensures
        phase_spec(start, start + k * period, period) == (k % 2 == 1),
{
    assert(k * period >= 0) by (nonlinear_arith)
        requires
            k >= 0,
            period > 0,
    ;
    assert((k * period) / period == k) by (nonlinear_arith)
        requires
            period > 0,
    ;
}

} // verus!
