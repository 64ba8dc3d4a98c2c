//! Wall-clock time in milliseconds since the Unix epoch.

use vstd::prelude::*;

verus! {

/// The current time as seconds and nanoseconds since the epoch.
///
/// Trusted: calls `time::now_utc` and `Tm::to_timespec` on the time it
/// gives. The crate's source builds the result with `Timespec::new`, which
/// asserts that the nanoseconds lie in `0..1_000_000_000`; that range is
/// what the contract states. The seconds depend on the clock and are left
/// unsaid.
#[verifier::external_body]
pub(crate) fn now_timespec() -> (ts: (i64, i32))
    ensures
        0 <= ts.1 < 1_000_000_000,
{
    let spec = time::now_utc().to_timespec();
    (spec.sec, spec.nsec)
}

/// Milliseconds of a time given as seconds and nanoseconds since the epoch:
/// whole seconds times a thousand plus whole milliseconds of the nanoseconds.
pub open spec fn millis(sec: int, nsec: int) -> int {
    sec * 1000 + nsec / 1_000_000
}

/// Whether `millis(sec, nsec)` fits in an `i64`.
pub open spec fn millis_fit(sec: int, nsec: int) -> bool {
    i64::MIN <= millis(sec, nsec) <= i64::MAX
}

/// Milliseconds since the epoch of the time `sec` seconds and `nsec`
/// nanoseconds after it.
pub fn millis_from_timespec(sec: i64, nsec: i32) -> (ms: i64)
    requires
        0 <= nsec < 1_000_000_000,
        millis_fit(sec as int, nsec as int),
    ensures
        ms == millis(sec as int, nsec as int),
{
    let whole: i128 = (sec as i128) * 1000;
    let part: i128 = (nsec / 1_000_000) as i128;
    (whole + part) as i64
}

/// The milliseconds of a time, or `None` where they do not fit in an `i64`.
pub open spec fn checked_millis(sec: int, nsec: int) -> Option<i64> {
    if millis_fit(sec, nsec) {
        Some(millis(sec, nsec) as i64)
    } else {
        None
    }
}

/// Milliseconds since the epoch of the time `sec` seconds and `nsec`
/// nanoseconds after it, or `None` where they do not fit in an `i64`.
pub fn millis_checked(sec: i64, nsec: i32) -> (ms: Option<i64>)
    requires
        0 <= nsec < 1_000_000_000,
    ensures
        ms == checked_millis(sec as int, nsec as int),
{
    let total: i128 = (sec as i128) * 1000 + (nsec / 1_000_000) as i128;
    if total < i64::MIN as i128 || total > i64::MAX as i128 {
        None
    } else {
        Some(millis_from_timespec(sec, nsec))
    }
}

/// Law: the milliseconds of a time are those of the time itself. They are
/// there exactly when the count fits in an `i64`; then dividing them by a
/// thousand gives back the seconds, and the remainder is the whole
/// milliseconds of the nanoseconds.
pub proof fn law_millis_of_time(sec: int, nsec: int)
    requires
        0 <= nsec < 1_000_000_000,
    ensures
        checked_millis(sec, nsec) is Some <==> i64::MIN <= sec * 1000 + nsec / 1_000_000 <= i64::MAX,
        checked_millis(sec, nsec) matches Some(m) ==> {
            &&& m / 1000 == sec
            &&& m % 1000 == nsec / 1_000_000
            &&& sec * 1000 <= m < sec * 1000 + 1000
        },
{
    let r = nsec / 1_000_000;
    assert(0 <= r < 1000);
    if let Some(m) = checked_millis(sec, nsec) {
        assert(m == sec * 1000 + r);
        vstd::arithmetic::div_mod::lemma_fundamental_div_mod_converse(m as int, 1000, sec, r);
    }
}

/// The clock's reading, as seconds and nanoseconds since the epoch, with its
/// milliseconds, or `None` in their place where they do not fit in an `i64`.
pub fn read_clock_millis() -> (reading: ((i64, i32), Option<i64>))
    ensures
        0 <= reading.0.1 < 1_000_000_000,
        reading.1 == checked_millis(reading.0.0 as int, reading.0.1 as int),
{
    let (sec, nsec) = now_timespec();
    let ms = millis_checked(sec, nsec);
    ((sec, nsec), ms)
}

/// The current time in milliseconds since the epoch, or `None` where the
/// clock reads a time too far from the epoch for an `i64` of milliseconds:
/// the milliseconds of the seconds and nanoseconds the clock reads.
pub fn current_time_millis() -> (ms: Option<i64>)
    ensures
        exists|sec: i64, nsec: i32|
            0 <= nsec < 1_000_000_000 && ms == #[trigger] checked_millis(sec as int, nsec as int),
{
    let (reading, ms) = read_clock_millis();
    assert(0 <= reading.1 < 1_000_000_000 && ms == checked_millis(reading.0 as int, reading.1 as int));
    ms
}

} // verus!

verus! {

/// The length of an hour, in seconds.
pub open spec fn hour_seconds() -> int {
    3600
}

/// The time an hour after the time `sec` seconds and `nsec` nanoseconds
/// after the epoch, as seconds and nanoseconds: the seconds grow by 3600,
/// the nanoseconds stay. `None` where the seconds overflow an `i64`.
pub fn one_hour_later(sec: i64, nsec: i32) -> (later: Option<(i64, i32)>)
    requires
        0 <= nsec < 1_000_000_000,
    ensures
        match later {
            Some(t) => t.0 == sec + hour_seconds() && t.1 == nsec,
            None => sec + hour_seconds() > i64::MAX,
        },
{
    if sec > i64::MAX - 3600 {
        None
    } else {
        Some((sec + 3600, nsec))
    }
}

/// The current time and the time an hour later, each as seconds and
/// nanoseconds since the epoch; `None` in place of the later time where its
/// seconds overflow an `i64`.
pub fn now_and_hour_later() -> (times: ((i64, i32), Option<(i64, i32)>))
    ensures
        0 <= times.0.1 < 1_000_000_000,
        match times.1 {
            Some(t) => t.0 == times.0.0 + hour_seconds() && t.1 == times.0.1,
            None => times.0.0 + hour_seconds() > i64::MAX,
        },
{
    let (sec, nsec) = now_timespec();
    ((sec, nsec), one_hour_later(sec, nsec))
}

} // verus!
