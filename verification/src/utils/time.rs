//! Wall-clock timestamps since the Unix epoch.

use vstd::prelude::*;

verus! {

/// The clock reading type of the `time` crate.
#[verifier::external_type_specification]
#[verifier::external_body]
pub struct ExOffsetDateTime(::time::OffsetDateTime);

/// Reads the current date and time in UTC (`time::OffsetDateTime::now_utc`).
/// What it returns depends on the clock, so nothing is stated of it.
#[verifier::external_body]
fn now_utc() -> (now: ::time::OffsetDateTime) {
    ::time::OffsetDateTime::now_utc()
}

/// Whole seconds since the Unix epoch of `now`
/// (`time::OffsetDateTime::unix_timestamp`). Nothing is stated of it.
#[verifier::external_body]
fn unix_timestamp(now: &::time::OffsetDateTime) -> (secs: i64) {
    now.unix_timestamp()
}

/// Milliseconds within the second of `now` (`time::OffsetDateTime::millisecond`),
/// which the crate documents to be in `0..1_000`.
#[verifier::external_body]
fn millisecond(now: &::time::OffsetDateTime) -> (ms: u16)
    ensures
        ms < 1000,
{
    now.millisecond()
}

/// Microseconds within the second of `now` (`time::OffsetDateTime::microsecond`),
/// which the crate documents to be in `0..1_000_000`.
#[verifier::external_body]
fn microsecond(now: &::time::OffsetDateTime) -> (us: u32)
    ensures
        us < 1_000_000,
{
    now.microsecond()
}

/// Nanoseconds within the second of `now` (`time::OffsetDateTime::nanosecond`),
/// which the crate documents to be in `0..1_000_000_000`.
#[verifier::external_body]
fn nanosecond(now: &::time::OffsetDateTime) -> (ns: u32)
    ensures
        ns < 1_000_000_000,
{
    now.nanosecond()
}

/// Seconds and sub-second milliseconds combined into milliseconds, with the
/// wrap-around of `u64` arithmetic.
pub open spec fn spec_millis(secs: i64, millis: u16) -> u64 {
    vstd::wrapping::u64_specs::wrapping_add(
        vstd::wrapping::u64_specs::wrapping_mul(secs as u64, 1000),
        millis as u64,
    )
}

/// Seconds and sub-second microseconds combined into microseconds, with the
/// wrap-around of `u64` arithmetic.
pub open spec fn spec_micros(secs: i64, micros: u32) -> u64 {
    vstd::wrapping::u64_specs::wrapping_add(
        vstd::wrapping::u64_specs::wrapping_mul(secs as u64, 1_000_000),
        micros as u64,
    )
}

/// Seconds and sub-second nanoseconds combined into nanoseconds, with the
/// wrap-around of `u128` arithmetic.
pub open spec fn spec_nanos(secs: i64, nanos: u32) -> u128 {
    vstd::wrapping::u128_specs::wrapping_add(
        vstd::wrapping::u128_specs::wrapping_mul(secs as u128, 1_000_000_000),
        nanos as u128,
    )
}

/// Milliseconds since the Unix epoch of the instant `secs` seconds plus
/// `millis` milliseconds after it.
pub fn millis_from_parts(secs: i64, millis: u16) -> (r: u64)
    ensures
        r == spec_millis(secs, millis),
        0 <= secs && secs * 1000 + millis <= u64::MAX ==> r == secs * 1000 + millis,
{
    let s: u64 = secs as u64;
    let r = s.wrapping_mul(1000).wrapping_add(millis as u64);
    proof {
        if 0 <= secs && secs * 1000 + millis <= u64::MAX {
            assert(s == secs);
            assert(s * 1000 <= u64::MAX);
        }
    }
    r
}

/// Microseconds since the Unix epoch of the instant `secs` seconds plus
/// `micros` microseconds after it.
pub fn micros_from_parts(secs: i64, micros: u32) -> (r: u64)
    ensures
        r == spec_micros(secs, micros),
        0 <= secs && secs * 1_000_000 + micros <= u64::MAX ==> r == secs * 1_000_000 + micros,
{
    let s: u64 = secs as u64;
    let r = s.wrapping_mul(1_000_000).wrapping_add(micros as u64);
    proof {
        if 0 <= secs && secs * 1_000_000 + micros <= u64::MAX {
            assert(s == secs);
            assert(s * 1_000_000 <= u64::MAX);
        }
    }
    r
}

/// Nanoseconds since the Unix epoch of the instant `secs` seconds plus
/// `nanos` nanoseconds after it.
pub fn nanos_from_parts(secs: i64, nanos: u32) -> (r: u128)
    ensures
        r == spec_nanos(secs, nanos),
        0 <= secs ==> r == secs * 1_000_000_000 + nanos,
{
    let s: u128 = secs as u128;
    let r = s.wrapping_mul(1_000_000_000).wrapping_add(nanos as u128);
    proof {
        if 0 <= secs {
            assert(s == secs);
            assert(s * 1_000_000_000 <= 0x7fff_ffff_ffff_ffff * 1_000_000_000) by (nonlinear_arith)
                requires s <= 0x7fff_ffff_ffff_ffff;
        }
    }
    r
}

/// Milliseconds from 1970-01-01 00:00:00 UTC to now.
///
/// The seconds and the milliseconds are read from one clock reading.
pub fn current_timestamp_millis() -> (r: u64)
    ensures
        exists|secs: i64, ms: u16| ms < 1000 && r == spec_millis(secs, ms),
{
    let now = now_utc();
    let secs = unix_timestamp(&now);
    let ms = millisecond(&now);
    millis_from_parts(secs, ms)
}

/// Microseconds from 1970-01-01 00:00:00 UTC to now.
pub fn current_timestamp_micros() -> (r: u64)
    ensures
        exists|secs: i64, us: u32| us < 1_000_000 && r == spec_micros(secs, us),
{
    let now = now_utc();
    let secs = unix_timestamp(&now);
    let us = microsecond(&now);
    micros_from_parts(secs, us)
}

/// Nanoseconds from 1970-01-01 00:00:00 UTC to now.
pub fn current_timestamp_nanos() -> (r: u128)
    ensures
        exists|secs: i64, ns: u32| ns < 1_000_000_000 && r == spec_nanos(secs, ns),
{
    let now = now_utc();
    let secs = unix_timestamp(&now);
    let ns = nanosecond(&now);
    nanos_from_parts(secs, ns)
}

} // verus!
