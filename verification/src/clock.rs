//! The wall clock and the monotonic clock.
//!
//! What a clock gives is not known beforehand.  The contracts say of which calls a number is the
//! result.
use vstd::prelude::*;

verus! {

/// A reading of the system clock.
#[verifier::external_type_specification]
#[verifier::external_body]
pub struct ExSystemTime(std::time::SystemTime);

/// What `SystemTime::duration_since` gives for a clock set before the reference time.
#[verifier::external_type_specification]
#[verifier::external_body]
pub struct ExSystemTimeError(std::time::SystemTimeError);

/// A reading of the monotonic clock.
#[verifier::external_type_specification]
#[verifier::external_body]
pub struct ExInstant(std::time::Instant);

/// `Instant::now`: a reading of the monotonic clock.  Nothing is claimed of it.
pub assume_specification[ std::time::Instant::now ]() -> std::time::Instant
;

/// `Instant::elapsed`: the span since a reading.  Nothing is claimed of it.
pub assume_specification[ std::time::Instant::elapsed ](i: &std::time::Instant) -> std::time::Duration
;

/// The most nanoseconds that a span can hold.
pub const MAX_SPAN_NANOS: u128 = 18_446_744_073_709_551_615_999_999_999;

/// `Duration::as_nanos`: the whole nanoseconds in a span, at most those in the longest span.
/// Spans are opaque here, so nothing else is claimed of them.
pub assume_specification[ std::time::Duration::as_nanos ](d: &std::time::Duration) -> (r: u128)
    ensures
        r <= MAX_SPAN_NANOS,
;

/// `SystemTime::now`: a reading of the system clock.  Nothing is claimed of it.
pub assume_specification[ std::time::SystemTime::now ]() -> std::time::SystemTime
;

/// `Duration::as_millis`: the whole milliseconds in a span.  Spans are opaque here, so nothing is
/// claimed of them.
pub assume_specification[ std::time::Duration::as_millis ](d: &std::time::Duration) -> u128
;

/// `Duration::subsec_nanos`: the nanoseconds of a span beyond its whole seconds, fewer than
/// make a second.  Spans are opaque here, so nothing else is claimed of them.
pub assume_specification[ std::time::Duration::subsec_nanos ](d: &std::time::Duration) -> (r: u32)
    ensures
        r < 1_000_000_000,
;

/// `SystemTime::duration_since` the Unix epoch.  Nothing is claimed of the span; the
/// clock may stand before the epoch.
#[verifier::external_body]
fn since_epoch(t: std::time::SystemTime) -> Result<std::time::Duration, std::time::SystemTimeError> {
    t.duration_since(std::time::UNIX_EPOCH)
}

/// `t` is a reading that `SystemTime::now` gave.
pub open spec fn is_wall_reading(t: std::time::SystemTime) -> bool {
    call_ensures(std::time::SystemTime::now, (), t)
}

/// `i` is a reading that `Instant::now` gave.
pub open spec fn is_mono_reading(i: std::time::Instant) -> bool {
    call_ensures(std::time::Instant::now, (), i)
}

/// `e` is what `SystemTime::duration_since` gave for `t` and the Unix epoch.
pub closed spec fn epoch_span(
    t: std::time::SystemTime,
    e: Result<std::time::Duration, std::time::SystemTimeError>,
) -> bool {
    call_ensures(since_epoch, (t,), e)
}

/// `n` is what `Duration::as_nanos` gave for the span `d`.
pub open spec fn span_nanos(d: std::time::Duration, n: u128) -> bool {
    call_ensures(std::time::Duration::as_nanos, (&d,), n)
}

/// `n` is what `Duration::as_millis` gave for the span `d`.
pub open spec fn span_millis(d: std::time::Duration, n: u128) -> bool {
    call_ensures(std::time::Duration::as_millis, (&d,), n)
}

/// `n` is what `Duration::subsec_nanos` gave for the span `d`.
pub open spec fn span_subsec_nanos(d: std::time::Duration, n: u32) -> bool {
    call_ensures(std::time::Duration::subsec_nanos, (&d,), n)
}

/// `d` is what `Instant::elapsed` gave for the reading `i`.
pub open spec fn elapsed_span(i: std::time::Instant, d: std::time::Duration) -> bool {
    call_ensures(std::time::Instant::elapsed, (&i,), d)
}

/// `n` is the number of nanoseconds in a span that `Instant::elapsed` gave for the reading `i`.
pub open spec fn elapsed_nanos(i: std::time::Instant, n: u128) -> bool {
    exists|d: std::time::Duration| #[trigger] elapsed_span(i, d) && span_nanos(d, n)
}

/// `ms` is a reading of the wall clock in milliseconds since the Unix epoch, cut to 64 bits, or
/// zero where the clock stood before the epoch.
pub open spec fn is_wall_ms(ms: u64) -> bool {
    exists|t: std::time::SystemTime, e: Result<std::time::Duration, std::time::SystemTimeError>|
        #![trigger epoch_span(t, e)]
        is_wall_reading(t) && epoch_span(t, e) && (match e {
            Ok(d) => exists|n: u128| #[trigger] span_millis(d, n) && ms == n as u64,
            Err(_) => ms == 0,
        })
}

/// `ns` is a reading of the wall clock, in nanoseconds beyond its whole seconds, or zero where
/// the clock stood before the Unix epoch.
pub open spec fn is_wall_subsec(ns: u32) -> bool {
    exists|t: std::time::SystemTime, e: Result<std::time::Duration, std::time::SystemTimeError>|
        #![trigger epoch_span(t, e)]
        is_wall_reading(t) && epoch_span(t, e) && (match e {
            Ok(d) => span_subsec_nanos(d, ns),
            Err(_) => ns == 0,
        })
}

/// Milliseconds since the Unix epoch, or zero where the clock stands before it.  Which of them
/// it gives, the clock decides.
pub fn unix_ms_now() -> (r: u64)
    ensures
        is_wall_ms(r),
{
    let t = std::time::SystemTime::now();
    let e = since_epoch(t);
    proof {
        assert(is_wall_reading(t));
        assert(epoch_span(t, e));
    }
    match e {
        Ok(d) => {
            let ms: u128 = d.as_millis();
            proof {
                assert(span_millis(d, ms));
            }
            #[verifier::truncate]
            (ms as u64)
        },
        Err(_) => 0,
    }
}

/// The nanoseconds of the wall clock beyond its whole seconds, or zero where it stands before
/// the Unix epoch.
pub fn subsec_nanos_now() -> (r: u32)
    ensures
        r < 1_000_000_000,
        is_wall_subsec(r),
{
    let t = std::time::SystemTime::now();
    let e = since_epoch(t);
    proof {
        assert(is_wall_reading(t));
        assert(epoch_span(t, e));
    }
    match e {
        Ok(d) => {
            let ns: u32 = d.subsec_nanos();
            proof {
                assert(span_subsec_nanos(d, ns));
            }
            ns
        },
        Err(_) => 0,
    }
}

}
