//! Wall-clock time, as text.

use vstd::prelude::*;

verus! {

/// The current instant in UTC, as seconds since the epoch and nanoseconds.
///
/// Calls `chrono::Utc::now()` and reads it with `timestamp` and `timestamp_subsec_nanos`.
/// The instant depends on the clock, so only what holds of every outcome is stated: the
/// system clock gives no leap second, so the nanoseconds stay below one second.
#[verifier::external_body]
fn utc_now_instant() -> (r: (i64, u32))
    ensures
        r.1 < 1_000_000_000,
{
    let t = chrono::Utc::now();
    (t.timestamp(), t.timestamp_subsec_nanos())
}

/// Last second of the year 9999, the end of the instants written with four-digit years.
pub open spec fn last_four_digit_second() -> int {
    253_402_300_799
}

/// An instant from the epoch to the end of year 9999, without a leap second: the range
/// whose texts have a four-digit year.
pub open spec fn four_digit_year_instant(secs: i64, nanos: u32) -> bool {
    0 <= secs <= last_four_digit_second() && nanos < 1_000_000_000
}

/// Text of an instant as `YYYYmmddHHMMSS`, in UTC.
pub uninterp spec fn compact_utc_text(secs: i64, nanos: u32) -> Seq<char>;

/// An ASCII digit.
pub open spec fn is_digit(c: char) -> bool {
    '0' <= c && c <= '9'
}

/// Format an instant as `YYYYmmddHHMMSS` in UTC.
///
/// Calls `chrono::DateTime::<Utc>::from_timestamp` and `format("%Y%m%d%H%M%S")`; an instant
/// outside chrono's range gives the empty text. The text is a function of the instant; for
/// an instant with a four-digit year chrono writes the year in four digits and the month,
/// day, hour, minute and second in two zero-padded digits each, so the text is fourteen
/// ASCII digits.
#[verifier::external_body]
fn format_compact_utc(secs: i64, nanos: u32) -> (r: String)
    ensures
        r@ == compact_utc_text(secs, nanos),
        four_digit_year_instant(secs, nanos) ==> r@.len() == 14 && forall|i: int| 0 <= i < 14 ==> is_digit(#[trigger] r@[i]),
{
    match chrono::DateTime::<chrono::Utc>::from_timestamp(secs, nanos) {
        Some(t) => t.format("%Y%m%d%H%M%S").to_string(),
        None => String::new(),
    }
}

/// `t` is the RFC 3339 text of some instant in UTC, which reads back as that instant
/// whenever its year has four digits.
pub open spec fn instant_text(t: Seq<char>) -> bool {
    exists|secs: i64, nanos: u32|
        #![trigger rfc3339_utc_text(secs, nanos)]
        t == rfc3339_utc_text(secs, nanos) && (four_digit_year_instant(secs, nanos) ==> rfc3339_instant(t) == Some(
            (secs, nanos),
        ))
}

/// `t` is the `YYYYmmddHHMMSS` text of some instant in UTC, fourteen ASCII digits whenever
/// its year has four digits.
pub open spec fn compact_instant_text(t: Seq<char>) -> bool {
    exists|secs: i64, nanos: u32|
        #![trigger compact_utc_text(secs, nanos)]
        t == compact_utc_text(secs, nanos) && (four_digit_year_instant(secs, nanos) ==> t.len() == 14 && forall|i: int|
            0 <= i < 14 ==> is_digit(#[trigger] t[i]))
}

/// Current time in UTC, RFC 3339: the text of the current instant.
pub(crate) fn utc_now_rfc3339() -> (r: String)
    ensures
        instant_text(r@),
{
    let (secs, nanos) = utc_now_instant();
    format_rfc3339_utc(secs, nanos)
}

/// Current time as `YYYYmmddHHMMSS`, in UTC: the text of the current instant.
pub(crate) fn utc_compact_timestamp() -> (r: String)
    ensures
        compact_instant_text(r@),
{
    let (secs, nanos) = utc_now_instant();
    format_compact_utc(secs, nanos)
}

/// Instant named by an RFC 3339 timestamp, as seconds since the epoch and nanoseconds,
/// when the text is one.
pub uninterp spec fn rfc3339_instant(s: Seq<char>) -> Option<(i64, u32)>;

/// RFC 3339 text, in UTC, of an instant given as seconds since the epoch and nanoseconds.
pub uninterp spec fn rfc3339_utc_text(secs: i64, nanos: u32) -> Seq<char>;

/// Parse an RFC 3339 timestamp.
///
/// Calls `chrono::DateTime::parse_from_rfc3339` and reads the instant back with
/// `timestamp` and `timestamp_subsec_nanos`. Claims only that the outcome is a function of
/// the text.
#[verifier::external_body]
pub(crate) fn parse_rfc3339(s: &str) -> (r: Option<(i64, u32)>)
    ensures
        r == rfc3339_instant(s@),
{
    match chrono::DateTime::parse_from_rfc3339(s) {
        Ok(t) => Some((t.timestamp(), t.timestamp_subsec_nanos())),
        Err(_) => None,
    }
}

/// Format an instant as RFC 3339 text in UTC.
///
/// Calls `chrono::DateTime::<Utc>::from_timestamp` and `to_rfc3339`; an instant outside
/// chrono's range gives the empty text. The text is a function of the instant. For an
/// instant with a four-digit year chrono writes `YYYY-MM-DDTHH:MM:SS`, the nanoseconds in
/// as many fraction digits as they need, and `+00:00`, which `parse_from_rfc3339` reads
/// back as the same instant; other years are written with a sign, which RFC 3339 does not
/// allow, so nothing is claimed of them.
#[verifier::external_body]
pub(crate) fn format_rfc3339_utc(secs: i64, nanos: u32) -> (r: String)
    ensures
        r@ == rfc3339_utc_text(secs, nanos),
        four_digit_year_instant(secs, nanos) ==> rfc3339_instant(r@) == Some((secs, nanos)),
{
    match chrono::DateTime::<chrono::Utc>::from_timestamp(secs, nanos) {
        Some(t) => t.to_rfc3339(),
        None => String::new(),
    }
}

} // verus!
