//! What the crate relies on from `std::time`.
use std::time::Duration;
use std::time::Instant;
use std::time::SystemTime;
use vstd::prelude::*;

verus! {

/// Nanoseconds in a second.
pub const NANOS_PER_SEC: u128 = 1_000_000_000;

/// Nanoseconds in the longest `Duration`: `u64::MAX` seconds and 999,999,999
/// nanoseconds.
pub const MAX_DURATION_NANOS: u128 = 18_446_744_073_709_551_615_999_999_999;

/// The length of a duration in nanoseconds: what `Duration::as_nanos` returns.
pub uninterp spec fn duration_nanos(d: Duration) -> nat;

/// `Duration::as_nanos` returns the duration's length in nanoseconds. A
/// duration is a `u64` of seconds and less than a second of nanoseconds, so
/// the length never passes [`MAX_DURATION_NANOS`].
pub assume_specification[ Duration::as_nanos ](d: &Duration) -> (nanos: u128)
    ensures
        nanos == duration_nanos(*d),
        nanos <= MAX_DURATION_NANOS,
;

/// `Duration::new` makes a duration of so many seconds plus so many
/// nanoseconds. It carries a second or more of nanoseconds into the seconds,
/// and panics when that overflows; the contract asks for less than a second.
pub assume_specification[ Duration::new ](secs: u64, nanos: u32) -> (d: Duration)
    requires
        nanos < NANOS_PER_SEC,
    ensures
        duration_nanos(d) == secs * NANOS_PER_SEC + nanos,
;

/// A reading of the monotonic clock. Nothing is known of its value.
#[verifier::external_type_specification]
#[verifier::external_body]
pub struct ExInstant(std::time::Instant);

/// A reading of the wall clock. Nothing is known of its value.
#[verifier::external_type_specification]
#[verifier::external_body]
pub struct ExSystemTime(std::time::SystemTime);

/// `Instant::now` reads the monotonic clock; the result depends on when it is
/// called, so the contract promises nothing of it.
pub assume_specification[ Instant::now ]() -> (at: Instant)
;

/// The nanoseconds from one reading of the monotonic clock to another: the
/// length of what `Instant::duration_since` returns.
pub uninterp spec fn nanos_between(later: Instant, earlier: Instant) -> nat;

/// `Instant::duration_since` returns the time from the `earlier` reading to the
/// `later` one, and zero when they are the other way round. The contract gives
/// its length a name, [`nanos_between`], and says only that it depends on
/// nothing but the two readings.
pub assume_specification[ Instant::duration_since ](later: &Instant, earlier: Instant) -> (d:
    Duration)
    ensures
        duration_nanos(d) == nanos_between(*later, earlier),
;

/// `SystemTime::now` reads the wall clock; the result depends on when it is
/// called, so the contract promises nothing of it.
pub assume_specification[ SystemTime::now ]() -> (at: SystemTime)
;

/// What the standard library prints for a duration of so many nanoseconds
/// under `{:?}`, such as `1.5s`.
pub uninterp spec fn duration_debug_text(nanos: nat) -> Seq<char>;

/// The duration's `Debug` form, from `<Duration as std::fmt::Debug>::fmt`.
///
/// The contract gives the text a name, [`duration_debug_text`], and says only
/// that it depends on nothing but the length of the duration; the choice of
/// unit and the number of decimals are left to the standard library.
#[verifier::external_body]
pub(crate) fn debug_duration(d: Duration) -> (r: String)
    ensures
        r@ == duration_debug_text(duration_nanos(d)),
{
    format!("{d:?}")
}

/// The duration of `nanos` nanoseconds.
pub fn from_nanos(nanos: u128) -> (d: Duration)
    requires
        nanos <= MAX_DURATION_NANOS,
    ensures
        duration_nanos(d) == nanos,
{
    let secs: u128 = nanos / NANOS_PER_SEC;
    let rest: u128 = nanos % NANOS_PER_SEC;
    Duration::new(secs as u64, rest as u32)
}

/// The duration of `millis` milliseconds.
pub fn from_millis(millis: u32) -> (d: Duration)
    ensures
        duration_nanos(d) == millis * 1_000_000,
{
    from_nanos(millis as u128 * 1_000_000)
}

/// The duration of `secs` seconds.
pub fn from_secs(secs: u64) -> (d: Duration)
    ensures
        duration_nanos(d) == secs * NANOS_PER_SEC,
{
    Duration::new(secs, 0)
}

} // verus!
