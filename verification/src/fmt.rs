//! The timestamp text shown beside a note.
use vstd::prelude::*;
use vstd::string::StringExecFns;
use chrono::TimeZone;

verus! {

/// The text chrono renders for `ts` seconds after the Unix epoch, in UTC,
/// as year-month-day hour:minute. A function of the timestamp alone.
pub uninterp spec fn utc_minute_display(ts: u64) -> Seq<char>;

/// Relies on chrono: `TimeZone::timestamp_opt` on `Utc` yields exactly one
/// date-time for an in-range number of seconds and none for an out-of-range
/// one (`LocalResult::single`), and `DateTime::format` with the fixed
/// format `%Y-%m-%d %H:%M` renders it in UTC. The rendering depends on the
/// timestamp alone.
#[verifier::external_body]
fn utc_format_minutes(ts: u64) -> (r: Option<String>)
    ensures
        r matches Some(s) ==> s@ == utc_minute_display(ts),
{
    match chrono::Utc.timestamp_opt(ts as i64, 0).single() {
        Some(dt) => Some(dt.format("%Y-%m-%d %H:%M").to_string()),
        None => None,
    }
}

/// What is displayed for each outcome of the rendering call: the rendered
/// text itself, or a dash when there is none.
pub fn display_or_dash(r: Option<String>) -> (out: String)
    ensures
        out@ == match r {
            Some(s) => s@,
            None => "-"@,
        },
{
    match r {
        Some(s) => s,
        None => String::from_str("-"),
    }
}

/// The timestamp display used beside a note: chrono's rendering of the
/// moment, or a dash when the timestamp lies outside the representable
/// range.
pub fn fmt_ts(ts: u64) -> (r: String)
    ensures
        r@ == utc_minute_display(ts) || r@ == "-"@,
{
    display_or_dash(utc_format_minutes(ts))
}

} // verus!
