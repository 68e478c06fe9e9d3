//! Time as the ledger keeps it.

use vstd::prelude::*;

use crate::repository::{RepoError, RepoErrorView};
use crate::text;

verus! {

/// Instants in UTC, numbered in their order: the second since the Unix epoch
/// times [`STRIDE`], and the nanoseconds within it. A second that ends a minute
/// may be followed by a leap second, whose nanoseconds count on from those of
/// the second before it.
pub type Timestamp = i128;

/// Nanoseconds between two instants.
pub type Span = i128;

/// How far the numbers of two seconds are apart: room for one second and the
/// leap second after it.
pub const STRIDE: i128 = 2_000_000_000;

/// The first instant a date can name: the start of the year -262143.
pub const MIN_TIMESTAMP: i128 = -16_669_202_457_600_000_000_000;

/// The last instant a date can name: the end of the year 262142.
pub const MAX_TIMESTAMP: i128 = 16_420_533_753_599_999_999_999;

/// Nanoseconds in one second.
pub const SECOND: i128 = 1_000_000_000;

/// The longest span, in whole milliseconds that fit 64 bits.
pub const LONGEST: Span = 9_223_372_036_854_775_807_000_000;

/// Far from every date, and from whatever a span leads to from one.
const FAR: i128 = 1_000_000_000_000_000_000_000_000_000_000;

/// The first second of the year 0.
pub const YEAR_ZERO: i64 = -62_167_219_200;

/// The last second of the year 9999.
pub const YEAR_LAST: i64 = 253_402_300_799;

/// The second an instant falls in, counted from the Unix epoch.
pub open spec fn second_of(t: Timestamp) -> int {
    t as int / 2_000_000_000
}

/// Nanoseconds of an instant within its second; those of a leap second are
/// past the first thousand million.
pub open spec fn nanos_of(t: Timestamp) -> int {
    t as int % 2_000_000_000
}

/// Whether a second has the nanoseconds: only one that ends a minute is
/// followed by a leap second.
pub open spec fn is_time(secs: int, nanos: int) -> bool {
    0 <= nanos < 1_000_000_000 || (1_000_000_000 <= nanos < 2_000_000_000 && secs % 60 == 59)
}

/// Instants that dates can name.
pub open spec fn in_calendar(t: Timestamp) -> bool {
    MIN_TIMESTAMP <= t <= MAX_TIMESTAMP && is_time(second_of(t), nanos_of(t))
}

/// The instant `nanos` within the second `secs`.
pub open spec fn at(secs: int, nanos: int) -> int {
    secs * 2_000_000_000 + nanos
}

/// The instant `secs` seconds and `nanos` nanoseconds from the Unix epoch on.
pub fn instant(secs: i64, nanos: u32) -> (r: Timestamp)
    ensures
        r == at(secs as int, nanos as int),
{
    secs as i128 * STRIDE + nanos as i128
}

/// Nanoseconds since the Unix epoch; those of a leap second are counted as
/// those of the second after it.
pub open spec fn count(t: Timestamp) -> int {
    second_of(t) * 1_000_000_000 + nanos_of(t)
}

/// The instant at a count of nanoseconds, which is in no leap second.
pub open spec fn of_count(n: int) -> int {
    at(n / 1_000_000_000, n % 1_000_000_000)
}

/// Where `span` leads from `t`. From within a leap second it may stay in it, or
/// lead out of it forwards, which leaves the leap second out of the count, or
/// backwards.
pub open spec fn reach(t: Timestamp, span: Span) -> int {
    let n = nanos_of(t) + span;
    if nanos_of(t) < 1_000_000_000 || n < 1_000_000_000 {
        of_count(second_of(t) * 1_000_000_000 + n)
    } else if n < 2_000_000_000 {
        at(second_of(t), n)
    } else {
        of_count(second_of(t) * 1_000_000_000 + n - 1_000_000_000)
    }
}

/// The instant `span` after `t`.
pub open spec fn after(t: Timestamp, span: Span) -> Timestamp {
    reach(t, span) as Timestamp
}

/// A date can name `t` and the instant `span` after it.
pub open spec fn in_reach(t: Timestamp, span: Span) -> bool {
    in_calendar(t) && MIN_TIMESTAMP <= reach(t, span) <= MAX_TIMESTAMP
}

/// How long `a` is after `b`. A leap second that the one is in is counted where
/// the other's time of day is later.
pub open spec fn since(a: Timestamp, b: Timestamp) -> int {
    let d = count(a) - count(b);
    let x = second_of(a) % 86_400;
    let y = second_of(b) % 86_400;
    if x > y && nanos_of(b) >= 1_000_000_000 {
        d + 1_000_000_000
    } else if x < y && nanos_of(a) >= 1_000_000_000 {
        d - 1_000_000_000
    } else {
        d
    }
}

/// Spans that can be measured.
pub open spec fn is_span(span: Span) -> bool {
    -LONGEST <= span <= LONGEST
}

/// The 64-bit nanosecond count of `t`, or the largest one where it does not
/// fit.
pub open spec fn spec_ns(t: Timestamp) -> i64 {
    if i64::MIN <= count(t) <= i64::MAX {
        count(t) as i64
    } else {
        i64::MAX
    }
}

/// `n` divided by `d`, rounded down.
fn floor(n: i128, d: i128) -> (r: i128)
    requires
        d == STRIDE || d == SECOND,
    ensures
        r == n as int / d as int,
{
    if n >= 0 {
        n / d
    } else {
        proof {
            if d == STRIDE {
                assert(n as int / 2_000_000_000 == -((-(n + 1)) / 2_000_000_000) - 1);
            } else {
                assert(n as int / 1_000_000_000 == -((-(n + 1)) / 1_000_000_000) - 1);
            }
        }
        -((-(n + 1)) / d) - 1
    }
}

/// The second and the nanoseconds of an instant.
fn parts(t: Timestamp) -> (r: (i128, i128))
    requires
        -FAR <= t <= FAR,
    ensures
        r.0 == second_of(t),
        r.1 == nanos_of(t),
{
    let secs: i128 = floor(t, STRIDE);
    (secs, t - secs * STRIDE)
}

/// Whether a date can name an instant.
pub fn is_date(t: Timestamp) -> (r: bool)
    ensures
        r == in_calendar(t),
{
    if t < MIN_TIMESTAMP || t > MAX_TIMESTAMP {
        return false;
    }
    let (secs, nanos) = parts(t);
    let minute: i128 = if secs >= 0 {
        secs % 60
    } else {
        59 - (-(secs + 1)) % 60
    };
    nanos < SECOND || minute == 59
}

/// The instant at a count of nanoseconds.
pub fn of_nanos(n: i64) -> (r: Timestamp)
    ensures
        r == of_count(n as int),
        in_calendar(r),
{
    at_count(n as i128)
}

fn at_count(n: i128) -> (r: Timestamp)
    requires
        -FAR <= n <= FAR,
    ensures
        r == of_count(n as int),
{
    let secs: i128 = floor(n, SECOND);
    secs * STRIDE + (n - secs * SECOND)
}

fn lead(t: Timestamp, span: Span) -> (r: Timestamp)
    requires
        -FAR <= t <= FAR,
        is_span(span),
    ensures
        r == reach(t, span),
{
    let (secs, nanos) = parts(t);
    let n: i128 = nanos + span;
    if nanos < SECOND || n < SECOND {
        at_count(secs * SECOND + n)
    } else if n < STRIDE {
        t + span
    } else {
        at_count(secs * SECOND + n - SECOND)
    }
}

/// Whether `now` is not before where `span` leads from `t`.
pub fn has_passed(now: Timestamp, t: Timestamp, span: Span) -> (r: bool)
    requires
        in_calendar(now),
        is_span(span),
    ensures
        r == (now >= reach(t, span)),
{
    if t > FAR {
        false
    } else if t < -FAR {
        true
    } else {
        now >= lead(t, span)
    }
}

/// The instant `span` after `t`, where a date can name it.
pub fn checked_after(t: Timestamp, span: Span) -> (r: Option<Timestamp>)
    requires
        in_calendar(t),
    ensures
        r == if in_reach(t, span) {
            Some(after(t, span))
        } else {
            None
        },
{
    if span < -LONGEST || span > LONGEST {
        return None;
    }
    let r: Timestamp = lead(t, span);
    if r < MIN_TIMESTAMP || r > MAX_TIMESTAMP {
        None
    } else {
        Some(r)
    }
}

/// The instant `span` after `t`.
pub fn plus(t: Timestamp, span: Span) -> (r: Timestamp)
    requires
        in_reach(t, span),
    ensures
        r == after(t, span),
        in_calendar(r),
{
    proof {
        lemma_reach(t, span);
    }
    match checked_after(t, span) {
        Some(r) => r,
        None => t,
    }
}

/// What can be reached is a date.
pub proof fn lemma_reach(t: Timestamp, span: Span)
    requires
        in_reach(t, span),
    ensures
        in_calendar(after(t, span)),
{
}

/// How long `a` is after `b`.
pub fn between(a: Timestamp, b: Timestamp) -> (r: Span)
    requires
        in_calendar(a),
        in_calendar(b),
    ensures
        r == since(a, b),
        is_span(r),
{
    let (s, m) = parts(a);
    let (u, n) = parts(b);
    let d: i128 = (s * SECOND + m) - (u * SECOND + n);
    let x: i128 = of_day(s);
    let y: i128 = of_day(u);
    if x > y && n >= SECOND {
        d + SECOND
    } else if x < y && m >= SECOND {
        d - SECOND
    } else {
        d
    }
}

fn of_day(secs: i128) -> (r: i128)
    requires
        -FAR <= secs <= FAR,
    ensures
        r == secs as int % 86_400,
{
    if secs >= 0 {
        secs % 86_400
    } else {
        86_399 - (-(secs + 1)) % 86_400
    }
}

/// The nanosecond count of an instant.
pub fn nanos_since_epoch(t: Timestamp) -> (r: i128)
    requires
        in_calendar(t),
    ensures
        r == count(t),
{
    let (secs, nanos) = parts(t);
    secs * SECOND + nanos
}

/// The 64-bit nanosecond count of `t`, or the largest one where it does not
/// fit.
pub fn ns(t: &Timestamp) -> (r: i64)
    ensures
        r == spec_ns(*t),
{
    if *t < -FAR || *t > FAR {
        return i64::MAX;
    }
    let (secs, nanos) = parts(*t);
    let n: i128 = secs * SECOND + nanos;
    if n >= i64::MIN as i128 && n <= i64::MAX as i128 {
        n as i64
    } else {
        i64::MAX
    }
}

/// A longer span leads further, from within a leap second too.
pub proof fn law_a_longer_span_leads_further(t: Timestamp, a: Span, b: Span)
    requires
        a < b,
    ensures
        reach(t, a) < reach(t, b),
{
}

/// A span leads from an instant outside leap seconds to one that is as far
/// away.
pub proof fn law_a_span_leads_as_far(t: Timestamp, span: Span)
    requires
        in_reach(t, span),
        nanos_of(t) < 1_000_000_000,
    ensures
        since(after(t, span), t) == span,
        span > 0 ==> t < after(t, span),
{
}

/// The span that `Duration::from_millis` builds.
pub uninterp spec fn duration_of_millis(ms: u64) -> core::time::Duration;

/// The span that `Duration::from_secs` builds.
pub uninterp spec fn duration_of_secs(s: u64) -> core::time::Duration;

/// `Duration::from_millis` is a function of the milliseconds it is given.
pub assume_specification[ core::time::Duration::from_millis ](ms: u64) -> (r: core::time::Duration)
    ensures
        r == duration_of_millis(ms),
;

/// `Duration::from_secs` is a function of the seconds it is given.
pub assume_specification[ core::time::Duration::from_secs ](s: u64) -> (r: core::time::Duration)
    ensures
        r == duration_of_secs(s),
;

/// Instants in a year of four digits.
pub open spec fn four_digit_year(t: Timestamp) -> bool {
    YEAR_ZERO <= second_of(t) <= YEAR_LAST && is_time(second_of(t), nanos_of(t))
}

/// What `DateTime::format` writes for a second and its nanoseconds under the
/// pattern of [`ts`].
pub uninterp spec fn utc_text(secs: i64, nanos: u32) -> Seq<char>;

/// What `DateTime::parse_from_rfc3339` reads: the second and the nanoseconds
/// within it, or its words against the text.
pub uninterp spec fn rfc3339(raw: Seq<char>) -> Result<(i64, u32), Seq<char>>;

/// The text reads as the second and its nanoseconds.
pub open spec fn reads_as(raw: Seq<char>, secs: i64, nanos: u32) -> bool {
    rfc3339(raw) == Ok::<(i64, u32), Seq<char>>((secs, nanos))
}

/// The texts of the instants before a second and its nanoseconds, from the
/// year 0 on, are less than `raw`.
pub open spec fn follows_earlier(raw: Seq<char>, secs: i64, nanos: u32) -> bool {
    forall|s: i64, n: u32|
        YEAR_ZERO <= s && (s < secs || (s == secs && n < nanos)) && is_time(s as int, n as int)
            ==> text::text_lt(#[trigger] utc_text(s, n), raw)
}

/// `DateTime::from_timestamp` and `DateTime::format` with a fixed pattern.
/// The text is a function of the second and its nanoseconds. In a year of
/// four digits every field is written with a fixed number of digits from the
/// year down to the nanosecond, a leap second as the second 60 of its minute,
/// so `parse_from_rfc3339` reads the same instant back and an earlier instant
/// of such a year has a lesser text.
#[verifier::external_body]
fn format_utc(secs: i64, nanos: u32) -> (r: String)
    requires
        MIN_TIMESTAMP <= secs * 2_000_000_000 <= MAX_TIMESTAMP,
        is_time(secs as int, nanos as int),
    ensures
        r@ == utc_text(secs, nanos),
        YEAR_ZERO <= secs <= YEAR_LAST ==> reads_as(r@, secs, nanos),
        YEAR_ZERO <= secs <= YEAR_LAST ==> follows_earlier(r@, secs, nanos),
{
    let t = chrono::DateTime::<chrono::Utc>::from_timestamp(secs, nanos).unwrap();
    t.format("%Y-%m-%dT%H:%M:%S%.9fZ").to_string()
}

/// What `DateTime::format` writes for a second and its nanoseconds under the
/// pattern of [`file_stamp`].
pub uninterp spec fn stamp_text(secs: i64, nanos: u32) -> Seq<char>;

/// `DateTime::from_timestamp` and `DateTime::format` with the pattern of a
/// file name. The text is a function of the second and its nanoseconds; what
/// its digits are is not claimed.
#[verifier::external_body]
fn format_stamp(secs: i64, nanos: u32) -> (r: String)
    requires
        MIN_TIMESTAMP <= secs * 2_000_000_000 <= MAX_TIMESTAMP,
        is_time(secs as int, nanos as int),
    ensures
        r@ == stamp_text(secs, nanos),
{
    let t = chrono::DateTime::<chrono::Utc>::from_timestamp(secs, nanos).unwrap();
    t.format("%Y%m%dT%H%M%SZ").to_string()
}

/// `DateTime::parse_from_rfc3339`. What it makes of a text is a function of
/// the text alone. A second 60 is the leap second after the second 59. The
/// year has four digits, and the offset is less than a day.
#[verifier::external_body]
fn read_rfc3339(raw: &str) -> (r: Result<(i64, u32), String>)
    ensures
        match r {
            Ok(v) => rfc3339(raw@) == Ok::<(i64, u32), Seq<char>>(v) && is_time(
                v.0 as int,
                v.1 as int,
            ) && YEAR_ZERO - 86_400 <= v.0 <= YEAR_LAST + 86_400,
            Err(e) => rfc3339(raw@) == Err::<(i64, u32), Seq<char>>(e@),
        },
{
    match chrono::DateTime::parse_from_rfc3339(raw) {
        Ok(t) => Ok((t.timestamp(), t.timestamp_subsec_nanos())),
        Err(e) => Err(e.to_string()),
    }
}

/// The text of an instant in a column.
pub open spec fn ts_text(t: Timestamp) -> Seq<char> {
    utc_text(second_of(t) as i64, nanos_of(t) as u32)
}

/// The text of an optional instant.
pub open spec fn opt_ts_text(t: Option<Timestamp>) -> Option<Seq<char>> {
    match t {
        Some(t) => Some(ts_text(t)),
        None => None,
    }
}

/// The instant a text names, or why it names none.
pub open spec fn read_ts(raw: Seq<char>) -> Result<Timestamp, Seq<char>> {
    match rfc3339(raw) {
        Ok(v) => Ok(at(v.0 as int, v.1 as int) as Timestamp),
        Err(e) => Err(e),
    }
}

/// Whether an optional instant is in the calendar.
pub open spec fn opt_in_calendar(t: Option<Timestamp>) -> bool {
    t is Some ==> in_calendar(t->0)
}

/// The second of an instant, as it stands in a file's name.
pub fn file_stamp(t: &Timestamp) -> (r: String)
    requires
        in_calendar(*t),
    ensures
        r@ == stamp_text(second_of(*t) as i64, nanos_of(*t) as u32),
{
    let (secs, nanos) = parts(*t);
    format_stamp(secs as i64, nanos as u32)
}

/// Fixed-width RFC 3339 UTC: in years of four digits, texts order as the
/// instants do and read back as the instant they were written for.
pub fn ts(t: &Timestamp) -> (r: String)
    requires
        in_calendar(*t),
    ensures
        r@ == ts_text(*t),
        four_digit_year(*t) ==> read_ts(r@) == Ok::<Timestamp, Seq<char>>(*t),
        four_digit_year(*t) ==> forall|u: Timestamp|
            four_digit_year(u) && u < *t ==> text::text_lt(#[trigger] ts_text(u), r@),
{
    let (secs, nanos) = parts(*t);
    let r = format_utc(secs as i64, nanos as u32);
    proof {
        if four_digit_year(*t) {
            assert forall|u: Timestamp| four_digit_year(u) && u < *t implies text::text_lt(
                #[trigger] ts_text(u),
                r@,
            ) by {
                assert(ts_text(u) == utc_text(second_of(u) as i64, nanos_of(u) as u32));
            }
        }
    }
    r
}

/// The text of an optional instant.
pub fn opt_ts(t: &Option<Timestamp>) -> (r: Option<String>)
    requires
        opt_in_calendar(*t),
    ensures
        text::opt_view(r) == opt_ts_text(*t),
        t is Some && four_digit_year(t->0) ==> r is Some && read_ts(r->0@) == Ok::<
            Timestamp,
            Seq<char>,
        >(t->0),
{
    match t {
        Some(t) => Some(ts(t)),
        None => None,
    }
}

/// A text that names no instant.
pub open spec fn bad_ts(raw: Seq<char>, words: Seq<char>) -> RepoErrorView {
    RepoErrorView::Serialization("timestamp `"@ + raw + "`: "@ + words)
}

/// What reading a column of instants comes to.
pub open spec fn parsed_ts(raw: Seq<char>) -> Result<Timestamp, RepoErrorView> {
    match read_ts(raw) {
        Ok(t) => Ok(t),
        Err(e) => Err(bad_ts(raw, e)),
    }
}

/// What reading a column of optional instants comes to.
pub open spec fn parsed_opt_ts(raw: Option<Seq<char>>) -> Result<
    Option<Timestamp>,
    RepoErrorView,
> {
    match raw {
        Some(raw) => match parsed_ts(raw) {
            Ok(t) => Ok(Some(t)),
            Err(e) => Err(e),
        },
        None => Ok(None),
    }
}

/// The instant a text names, or why it names none.
pub fn instant_of(raw: &str) -> (r: Result<Timestamp, String>)
    ensures
        match r {
            Ok(t) => read_ts(raw@) == Ok::<Timestamp, Seq<char>>(t) && in_calendar(t),
            Err(e) => read_ts(raw@) == Err::<Timestamp, Seq<char>>(e@),
        },
{
    match read_rfc3339(raw) {
        Ok((secs, nanos)) => Ok(instant(secs, nanos)),
        Err(e) => Err(e),
    }
}

/// The instant a column holds.
pub fn parse_ts(raw: &str) -> (r: Result<Timestamp, RepoError>)
    ensures
        crate::repository::agrees(r, parsed_ts(raw@)),
        r is Ok ==> in_calendar(r->Ok_0),
{
    match instant_of(raw) {
        Ok(t) => Ok(t),
        Err(e) => {
            let mut m = text::owned("timestamp `");
            m.append(raw);
            m.append("`: ");
            m.append(e.as_str());
            Err(RepoError::Serialization(m))
        },
    }
}

/// The instant an optional column holds.
pub fn parse_opt_ts(raw: &Option<String>) -> (r: Result<Option<Timestamp>, RepoError>)
    ensures
        crate::repository::agrees(r, parsed_opt_ts(text::opt_view(*raw))),
        r is Ok ==> opt_in_calendar(r->Ok_0),
{
    match raw {
        Some(raw) => match parse_ts(raw.as_str()) {
            Ok(t) => Ok(Some(t)),
            Err(e) => Err(e),
        },
        None => Ok(None),
    }
}

} // verus!
