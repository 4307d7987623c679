//! Time: the clock, and the forms in which an instant is written down.
//!
//! An instant is a number of milliseconds since the Unix epoch.

use crate::text::opt_text;
use vstd::prelude::*;

verus! {

/// Last instant that has a written form.
pub const LAST_INSTANT: i64 = 8_210_266_876_799_999;

/// First instant that a written form can stand for.
pub const FIRST_INSTANT: i64 = -8_334_601_228_800_000;

/// Last instant of the year 9999, the last one with a year of four digits.
pub const LAST_FOUR_DIGIT_INSTANT: i64 = 253_402_300_799_999;

/// Whether an instant has a written form here: it is not before the epoch, nor past the last one.
pub open spec fn writable(millis: i64) -> bool {
    0 <= millis <= LAST_INSTANT
}

/// Whether an instant can be dated: it is within the range of chrono's dates.
pub open spec fn datable(millis: i64) -> bool {
    FIRST_INSTANT <= millis <= LAST_INSTANT
}

/// `chrono::Utc::now`, as milliseconds by `chrono::DateTime::timestamp_millis`: the time of the
/// system clock, which is not before the epoch and within the range of chrono's dates. What the
/// clock shows is left open.
#[verifier::external_body]
fn clock() -> (r: i64)
    ensures
        writable(r),
{
    chrono::Utc::now().timestamp_millis()
}

/// Form of an instant in RFC 3339 with milliseconds, as chrono writes it.
pub uninterp spec fn rfc3339_text(millis: i64) -> Seq<char>;

/// Instant that a text in RFC 3339 stands for, as chrono reads it.
pub uninterp spec fn rfc3339_millis(text: Seq<char>) -> Option<i64>;

/// Instant that a text in RFC 2822 stands for, as chrono reads it.
pub uninterp spec fn rfc2822_instant(text: Seq<char>) -> Option<i64>;

/// Form of an instant under a pattern, as chrono writes it.
pub uninterp spec fn strftime_text(millis: i64, pattern: Seq<char>) -> Seq<char>;

/// `chrono::DateTime::to_rfc3339_opts` with milliseconds and `Z`, on the instant that
/// `chrono::DateTime::from_timestamp_millis` gives. Up to the year 9999 the text is one that
/// `chrono::DateTime::parse_from_rfc3339` reads back to the same instant.
#[verifier::external_body]
fn write_rfc3339(millis: i64) -> (r: String)
    requires
        writable(millis),
    ensures
        r@ == rfc3339_text(millis),
        millis <= LAST_FOUR_DIGIT_INSTANT ==> rfc3339_millis(r@) == Some(millis),
{
    chrono::DateTime::from_timestamp_millis(millis).unwrap().to_rfc3339_opts(
        chrono::SecondsFormat::Millis,
        true,
    )
}

/// Patterns in use: compact time, date, time of day, PeSIT date and time.
pub open spec fn known_pattern(p: Seq<char>) -> bool {
    p == "%Y%m%d_%H%M%S"@ || p == "%Y-%m-%d"@ || p == "%H-%M-%S"@ || p == "%y%m%d%H%M%S"@
}

/// `chrono::DateTime::format`, on the instant that `chrono::DateTime::from_timestamp_millis`
/// gives. Only patterns that chrono can write are admitted.
#[verifier::external_body]
fn write_pattern(millis: i64, pattern: &str) -> (r: String)
    requires
        datable(millis),
        known_pattern(pattern@),
    ensures
        r@ == strftime_text(millis, pattern@),
{
    chrono::DateTime::from_timestamp_millis(millis).unwrap().format(pattern).to_string()
}

/// `chrono::DateTime::parse_from_rfc3339`, as milliseconds: an instant within the range of
/// chrono's dates, or nothing where the text is not in RFC 3339.
#[verifier::external_body]
fn read_rfc3339(text: &str) -> (r: Option<i64>)
    ensures
        r == rfc3339_millis(text@),
        r matches Some(ms) ==> FIRST_INSTANT <= ms <= LAST_INSTANT,
{
    chrono::DateTime::parse_from_rfc3339(text).ok().map(|d| d.timestamp_millis())
}

/// `chrono::DateTime::parse_from_rfc2822`, as milliseconds: an instant, or nothing where the text
/// is not in RFC 2822. How far an instant may lie is left open.
#[verifier::external_body]
fn read_rfc2822(text: &str) -> (r: Option<i64>)
    ensures
        r == rfc2822_instant(text@),
{
    chrono::DateTime::parse_from_rfc2822(text).ok().map(|d| d.timestamp_millis())
}

/// An instant in RFC 3339 with milliseconds (`2026-08-28T20:00:00.123Z`).
#[must_use]
pub fn iso_of(millis: i64) -> (r: String)
    requires
        writable(millis),
    ensures
        r@ == rfc3339_text(millis),
        millis <= LAST_FOUR_DIGIT_INSTANT ==> rfc3339_millis(r@) == Some(millis),
{
    write_rfc3339(millis)
}

/// An instant as `yyyyMMdd_HHmmss`.
#[must_use]
pub fn compact_of(millis: i64) -> (r: String)
    requires
        writable(millis),
    ensures
        r@ == strftime_text(millis, "%Y%m%d_%H%M%S"@),
{
    write_pattern(millis, "%Y%m%d_%H%M%S")
}

/// The date of an instant as `yyyy-MM-dd`.
#[must_use]
pub fn date_of(millis: i64) -> (r: String)
    requires
        writable(millis),
    ensures
        r@ == strftime_text(millis, "%Y-%m-%d"@),
{
    write_pattern(millis, "%Y-%m-%d")
}

/// The time of day of an instant as `HH-mm-ss`.
#[must_use]
pub fn time_of(millis: i64) -> (r: String)
    requires
        writable(millis),
    ensures
        r@ == strftime_text(millis, "%H-%M-%S"@),
{
    write_pattern(millis, "%H-%M-%S")
}

/// An instant as PeSIT date and time (`yyMMddHHmmss`).
#[must_use]
pub fn pesit_of(millis: i64) -> (r: String)
    requires
        datable(millis),
    ensures
        r@ == strftime_text(millis, "%y%m%d%H%M%S"@),
{
    write_pattern(millis, "%y%m%d%H%M%S")
}

/// Milliseconds since the Unix epoch.
#[must_use]
pub fn now_millis() -> (r: i64)
    ensures
        writable(r),
{
    clock()
}

/// Current time in RFC 3339 with milliseconds.
#[must_use]
pub fn now_iso() -> (r: String)
    ensures
        exists|ms: i64| writable(ms) && r@ == #[trigger] rfc3339_text(ms),
{
    iso_of(clock())
}

/// Current time as `yyyyMMdd_HHmmss`.
#[must_use]
pub fn now_compact() -> (r: String)
    ensures
        exists|ms: i64|
            writable(ms) && r@ == #[trigger] strftime_text(ms, "%Y%m%d_%H%M%S"@),
{
    compact_of(clock())
}

/// Current date as `yyyy-MM-dd`.
#[must_use]
pub fn today() -> (r: String)
    ensures
        exists|ms: i64| writable(ms) && r@ == #[trigger] strftime_text(ms, "%Y-%m-%d"@),
{
    date_of(clock())
}

/// Current time as `HH-mm-ss`.
#[must_use]
pub fn now_time() -> (r: String)
    ensures
        exists|ms: i64| writable(ms) && r@ == #[trigger] strftime_text(ms, "%H-%M-%S"@),
{
    time_of(clock())
}

/// PeSIT date/time (`yyMMddHHmmss`) for now.
#[must_use]
pub fn pesit_now() -> (r: String)
    ensures
        exists|ms: i64| writable(ms) && r@ == #[trigger] strftime_text(ms, "%y%m%d%H%M%S"@),
{
    pesit_of(clock())
}

/// Parse an RFC 3339 timestamp to milliseconds since the epoch.
#[must_use]
pub fn parse_millis(iso: &str) -> (r: Option<i64>)
    ensures
        r == rfc3339_millis(iso@),
        r matches Some(ms) ==> FIRST_INSTANT <= ms <= LAST_INSTANT,
{
    read_rfc3339(iso)
}

/// Parse an RFC 2822 timestamp to milliseconds since the epoch.
#[must_use]
pub fn rfc2822_millis(text: &str) -> (r: Option<i64>)
    ensures
        r == rfc2822_instant(text@),
{
    read_rfc2822(text)
}

/// Time between two instants in RFC 3339, where both can be read.
pub open spec fn spec_elapsed(start: Option<i64>, end: Option<i64>) -> Option<i64> {
    match (start, end) {
        (Some(s), Some(e)) => Some((e - s) as i64),
        _ => None,
    }
}

/// Instant that an optional text stands for.
pub open spec fn opt_instant(t: Option<Seq<char>>) -> Option<i64> {
    match t {
        Some(t) => rfc3339_millis(t),
        None => None,
    }
}

/// Milliseconds between two instants, within the range of chrono's dates.
#[must_use]
pub fn elapsed(start: Option<i64>, end: Option<i64>) -> (r: Option<i64>)
    requires
        start matches Some(s) ==> FIRST_INSTANT <= s <= LAST_INSTANT,
        end matches Some(e) ==> FIRST_INSTANT <= e <= LAST_INSTANT,
    ensures
        r == spec_elapsed(start, end),
{
    match (start, end) {
        (Some(s), Some(e)) => Some(e - s),
        _ => None,
    }
}

/// Milliseconds between two instants written down in RFC 3339.
#[must_use]
pub fn elapsed_between(start: &Option<String>, end: &Option<String>) -> (r: Option<i64>)
    ensures
        r == spec_elapsed(opt_instant(opt_text(*start)), opt_instant(opt_text(*end))),
{
    let s = match start {
        Some(t) => parse_millis(t.as_str()),
        None => None,
    };
    let e = match end {
        Some(t) => parse_millis(t.as_str()),
        None => None,
    };
    elapsed(s, e)
}

} // verus!
