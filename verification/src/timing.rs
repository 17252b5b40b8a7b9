use vstd::prelude::*;

verus! {

// Wall-clock timing for the measured regions. What the clock reads is outside
// anything a contract can pin down, so the wrappers below promise nothing
// about the values that come back; every caller states what holds whatever
// the clock returned.

#[verifier::external_type_specification]
#[verifier::external_body]
pub struct ExInstant(std::time::Instant);

/// Relies on std::time::Instant::now: an opaque reading of the monotonic clock.
#[verifier::external_body]
pub(crate) fn instant_now() -> std::time::Instant {
    std::time::Instant::now()
}

/// Relies on std::time::Instant::elapsed: the time since `t`, as an opaque duration.
#[verifier::external_body]
pub(crate) fn instant_elapsed(t: &std::time::Instant) -> std::time::Duration {
    t.elapsed()
}

/// Relies on std::time::Duration::as_nanos: the whole duration in nanoseconds.
#[verifier::external_body]
pub(crate) fn duration_nanos(d: &std::time::Duration) -> u128 {
    d.as_nanos()
}

/// Relies on std::hint::black_box: its documentation states that it returns
/// its argument unchanged; its only job is to keep the argument from being
/// optimized away.
pub assume_specification<T>[ std::hint::black_box::<T> ](dummy: T) -> (r: T)
    ensures
        r == dummy,
;

/// The largest total a record carries, in nanoseconds: a longer measurement
/// is reported as this cap, so that scaling by ten thousand for the
/// per-operation figure stays within `u64`.
pub const TOTAL_NS_CAP: u64 = 1844674407370955;

/// Nanoseconds elapsed since `t0`, capped at `TOTAL_NS_CAP`.
pub(crate) fn elapsed_ns_capped(t0: &std::time::Instant) -> (r: u64)
    ensures
        r <= TOTAL_NS_CAP,
{
    let d = instant_elapsed(t0);
    let n = duration_nanos(&d);
    if n > TOTAL_NS_CAP as u128 {
        TOTAL_NS_CAP
    } else {
        n as u64
    }
}

} // verus!
