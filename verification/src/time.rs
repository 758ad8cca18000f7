//! Spans of time and the clock, as far as an animation reads them.
//!
//! `Duration` and `Instant` belong to the standard library. What this module states of
//! them is believed, not proved: each such item says so in its comment.

use std::time::Duration;
use std::time::Instant;
use vstd::prelude::*;

verus! {

/// A point on the monotonic clock. Nothing is known of what it holds.
#[verifier::external_type_specification]
#[verifier::external_body]
pub struct ExInstant(Instant);

/// The whole seconds of a span: what `Duration::as_secs` returns.
pub uninterp spec fn duration_secs(d: Duration) -> u64;

/// The part of a span below one second, in nanoseconds: what `Duration::subsec_nanos`
/// returns.
pub uninterp spec fn duration_subsec_nanos(d: Duration) -> u32;

/// `Duration::as_secs`: believed to return the span's whole seconds.
pub assume_specification[ Duration::as_secs ](d: &Duration) -> (secs: u64)
    ensures
        secs == duration_secs(*d),
;

/// `Duration::subsec_nanos`: believed to return the span's part below one second, in
/// nanoseconds, which is less than a thousand million.
pub assume_specification[ Duration::subsec_nanos ](d: &Duration) -> (nanos: u32)
    ensures
        nanos == duration_subsec_nanos(*d),
        nanos < 1_000_000_000,
;

/// `Duration::from_secs`: believed to return the span of that many whole seconds.
pub assume_specification[ Duration::from_secs ](secs: u64) -> (d: Duration)
    ensures
        duration_secs(d) == secs,
        duration_subsec_nanos(d) == 0,
;

/// `Duration::from_millis`: believed to return the span of that many milliseconds.
pub assume_specification[ Duration::from_millis ](millis: u64) -> (d: Duration)
    ensures
        duration_secs(d) == millis / 1000,
        duration_subsec_nanos(d) == (millis % 1000) * 1_000_000,
;

/// `Instant::now`: reads the clock. Nothing is stated of the result.
pub assume_specification[ Instant::now ]() -> (now: Instant)
;

/// `Instant::elapsed`: the time from that point to now. Nothing is stated of the result.
pub assume_specification[ Instant::elapsed ](start: &Instant) -> (d: Duration)
;

/// The longest span that a `Duration` holds, in nanoseconds.
pub const NANOS_MAX: u128 = 18_446_744_073_709_551_615_999_999_999;

/// The length of a span in nanoseconds.
pub open spec fn nanos_of(d: Duration) -> nat {
    (duration_secs(d) * 1_000_000_000 + duration_subsec_nanos(d)) as nat
}

/// The length of a span in whole milliseconds: what is below a millisecond is dropped.
pub open spec fn millis_of(d: Duration) -> nat {
    (duration_secs(d) * 1000 + duration_subsec_nanos(d) / 1_000_000) as nat
}

/// The whole milliseconds of a span are its nanoseconds divided by a million.
pub proof fn lemma_millis_of_nanos(d: Duration)
    ensures
        millis_of(d) == nanos_of(d) / 1_000_000,
{
    let s: int = duration_secs(d) as int;
    let n: int = duration_subsec_nanos(d) as int;
    assert((s * 1000 * 1_000_000 + n) / 1_000_000 == s * 1000 + n / 1_000_000) by {
        vstd::arithmetic::div_mod::lemma_div_multiples_vanish_fancy(s * 1000, n % 1_000_000, 1_000_000);
        vstd::arithmetic::div_mod::lemma_fundamental_div_mod(n, 1_000_000);
        vstd::arithmetic::div_mod::lemma_hoist_over_denominator(n, s * 1000, 1_000_000);
    }
}

/// The length of a span in whole milliseconds, where that fits in 64 bits.
pub fn to_millisecond(t: Duration) -> (ms: u64)
    requires
        millis_of(t) <= u64::MAX,
    ensures
        ms == millis_of(t),
{
    let sub: u32 = t.subsec_nanos() / 1_000_000;
    t.as_secs() * 1_000 + sub as u64
}

/// The length of a span in whole milliseconds, or `None` where that does not fit in 64
/// bits.
pub fn checked_millisecond(t: Duration) -> (ms: Option<u64>)
    ensures
        ms == if millis_of(t) <= u64::MAX { Some(millis_of(t) as u64) } else { None },
{
    let sub: u32 = t.subsec_nanos() / 1_000_000;
    let wide: u128 = t.as_secs() as u128 * 1_000 + sub as u128;
    if wide <= u64::MAX as u128 {
        Some(to_millisecond(t))
    } else {
        None
    }
}

/// The length of a span in nanoseconds.
pub fn to_nanosecond(t: Duration) -> (ns: u128)
    ensures
        ns == nanos_of(t),
        ns <= NANOS_MAX,
{
    t.as_secs() as u128 * 1_000_000_000 + t.subsec_nanos() as u128
}

} // verus!
