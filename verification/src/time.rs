//! Rendering of UNIX timestamps.

use vstd::prelude::*;

verus! {

/// The text `chrono` renders for the UTC date-time `secs` seconds after the UNIX epoch,
/// with the `strftime`-style format `fmt`.
pub uninterp spec fn utc_timestamp_text(secs: int, fmt: Seq<char>) -> Seq<char>;

/// The format in which dates are shown: `2024-01-31 13:45:00`.
pub open spec fn date_time_format() -> Seq<char> {
    "%Y-%m-%d %H:%M:%S"@
}

/// Calls `chrono::DateTime::<Utc>::from_timestamp(secs, 0)` and, for a date in chrono's
/// range, renders it with `DateTime::format(fmt)` and `to_string`. Claimed: the text is
/// `utc_timestamp_text(secs, fmt)`; every timestamp that fits in an `i32` is in range
/// (chrono's range spans about ±262,000 years, `from_timestamp` fails only outside it).
/// The format is required to be the one the UI uses, which chrono renders without error.
#[verifier::external_body]
fn format_utc_timestamp(secs: i64, fmt: &str) -> (r: Option<String>)
    requires
        fmt@ == date_time_format(),
    ensures
        i32::MIN <= secs <= i32::MAX ==> r is Some,
        r matches Some(t) ==> t@ == utc_timestamp_text(secs as int, fmt@),
{
    match chrono::DateTime::from_timestamp(secs, 0) {
        Some(d) => Some(d.format(fmt).to_string()),
        None => None,
    }
}

/// The date-time text of a timestamp, as the version and save lists show it.
pub fn timestamp_text(secs: i32) -> (r: String)
    ensures
        r@ == utc_timestamp_text(secs as int, date_time_format()),
{
    let fmt = "%Y-%m-%d %H:%M:%S";
    match format_utc_timestamp(secs as i64, fmt) {
        Some(t) => t,
        None => String::new(),
    }
}

/// When a save was last updated: the date of its newest version, or `Never`.
pub open spec fn last_updated_text_spec(most_recent: Option<i32>) -> Seq<char> {
    match most_recent {
        Some(t) => utc_timestamp_text(t as int, date_time_format()),
        None => "Never"@,
    }
}

/// When a save was last updated, as the save list shows it.
pub fn last_updated_text(most_recent: Option<i32>) -> (r: String)
    ensures
        r@ == last_updated_text_spec(most_recent),
{
    match most_recent {
        Some(t) => timestamp_text(t),
        None => String::from_str("Never"),
    }
}

} // verus!
