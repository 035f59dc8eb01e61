//! Reading RFC 3339 timestamps through `chrono`.
use vstd::prelude::*;

verus! {

#[verifier::external_type_specification]
#[verifier::external_body]
pub struct ExChronoParseError(chrono::ParseError);

/// The instant that `str::parse::<chrono::DateTime<chrono::Utc>>` reads from
/// `s`, as (seconds since the Unix epoch, nanoseconds within the second), or
/// `None` where it returns an error.
pub uninterp spec fn utc_instant(s: Seq<char>) -> Option<(i64, u32)>;

/// Bound on the seconds of any `chrono::DateTime`: chrono's dates lie within
/// years -262143..=262142, well inside ten trillion seconds of 1970.
pub open spec fn timestamp_in_range(secs: i64) -> bool {
    -10_000_000_000_000 <= secs <= 10_000_000_000_000
}

/// Parses a timestamp: calls `str::parse::<chrono::DateTime<chrono::Utc>>`,
/// then turns the date-time into its `timestamp()` and
/// `timestamp_subsec_nanos()`, which determine it. Claims that the outcome
/// depends on the text alone and that the seconds lie in chrono's range.
#[verifier::external_body]
pub(crate) fn parse_utc(s: &str) -> (r: Result<(i64, u32), chrono::ParseError>)
    ensures
        r is Ok <==> utc_instant(s@) is Some,
        r matches Ok(t) ==> t == utc_instant(s@)->0 && timestamp_in_range(t.0),
{
    match s.parse::<chrono::DateTime<chrono::Utc>>() {
        Ok(d) => Ok((d.timestamp(), d.timestamp_subsec_nanos())),
        Err(e) => Err(e),
    }
}


/// The text `chrono` writes for the UTC instant `secs` seconds after the
/// epoch in the format `%Y-%m-%d %H:%M:%S`, or `None` where chrono has no
/// such instant.
pub uninterp spec fn utc_text(secs: i64) -> Option<Seq<char>>;

/// Formats an instant: calls `chrono::Utc.timestamp_opt(secs, 0)` and, for the
/// single instant it yields, `format("%Y-%m-%d %H:%M:%S")` rendered with
/// `to_string`. Claims that the text depends on `secs` alone (UTC, no local
/// time zone is consulted).
#[verifier::external_body]
pub(crate) fn format_utc(secs: i64) -> (r: Option<String>)
    ensures
        r is Some <==> utc_text(secs) is Some,
        r matches Some(t) ==> t@ == utc_text(secs)->0,
{
    match chrono::TimeZone::timestamp_opt(&chrono::Utc, secs, 0) {
        chrono::LocalResult::Single(d) => Some(d.format("%Y-%m-%d %H:%M:%S").to_string()),
        _ => None,
    }
}

/// Rust's integer division, which rounds toward zero.
pub open spec fn div_toward_zero(a: int, b: int) -> int {
    if a >= 0 {
        a / b
    } else {
        -((-a) / b)
    }
}

/// The date and time of a tick stamped `ts` milliseconds after the epoch,
/// as `%Y-%m-%d %H:%M:%S` of its whole seconds; `None` where chrono has no
/// such instant.
pub fn tick_time_text(ts: i64) -> (r: Option<String>)
    ensures
        r is Some <==> utc_text(div_toward_zero(ts as int, 1000) as i64) is Some,
        r matches Some(t) ==> t@ == utc_text(div_toward_zero(ts as int, 1000) as i64)->0,
{
    let secs = ts / 1000;
    assert(secs as int == div_toward_zero(ts as int, 1000));
    format_utc(secs)
}

} // verus!
