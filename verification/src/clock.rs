//! Calendar conversions between `YYYY-MM-DD HH:MM:SS` timestamp strings and
//! instants (seconds relative to the Unix epoch).
//!
//! The calendar arithmetic itself (leap years, month lengths, field ranges)
//! is done by chrono; this module gives its two conversions names that the
//! rest of the library's contracts can speak about.

use vstd::prelude::*;

verus! {

/// The instant that a timestamp string denotes under the fixed pattern
/// `YYYY-MM-DD HH:MM:SS`, or `None` when the string does not match the
/// pattern or names an invalid calendar date or time. The result depends on
/// the characters of the string alone.
pub uninterp spec fn parsed_instant(s: Seq<char>) -> Option<i64>;

/// The `YYYY-MM-DD HH:MM:SS` rendering of an instant. The result depends on
/// the instant alone.
pub uninterp spec fn formatted_instant(t: i64) -> Seq<char>;

/// Relies on `chrono::NaiveDateTime::parse_from_str` with the fixed pattern
/// `%Y-%m-%d %H:%M:%S`, and on `chrono::DateTime::timestamp` to read the
/// parsed calendar date and time as seconds relative to the Unix epoch.
/// Both are pure functions of the string.
#[verifier::external_body]
pub(crate) fn parse_instant(s: &str) -> (r: Option<i64>)
    ensures
        r == parsed_instant(s@),
{
    match chrono::NaiveDateTime::parse_from_str(s, "%Y-%m-%d %H:%M:%S") {
        Ok(dt) => Some(dt.and_utc().timestamp()),
        Err(_) => None,
    }
}

/// Relies on `chrono::DateTime::from_timestamp` and on chrono's `%Y-%m-%d
/// %H:%M:%S` formatting, pure functions of the instant. Instants whose
/// calendar date lies outside chrono's representable range render as the
/// empty string.
#[verifier::external_body]
pub(crate) fn format_instant(t: i64) -> (r: String)
    ensures
        r@ == formatted_instant(t),
{
    match chrono::DateTime::from_timestamp(t, 0) {
        Some(dt) => dt.naive_utc().format("%Y-%m-%d %H:%M:%S").to_string(),
        None => String::new(),
    }
}

/// Parse one timestamp field, reporting a malformed one as an error.
pub(crate) fn parse_time_field(s: &String) -> (r: Result<i64, crate::gantt::TimeParseError>)
    ensures
        r is Ok <==> parsed_instant(s@) is Some,
        r matches Ok(t) ==> parsed_instant(s@) == Some(t),
{
    match parse_instant(s.as_str()) {
        Some(t) => Ok(t),
        None => Err(crate::gantt::TimeParseError),
    }
}

} // verus!
