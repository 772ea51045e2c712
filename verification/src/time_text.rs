//! RFC 3339 texts of UTC times and the time windows of history queries,
//! through chrono. The time itself is read by the caller.

use vstd::prelude::*;

verus! {

/// The RFC 3339 text (`DateTime::to_rfc3339`) of the UTC time `secs`
/// seconds and `nanos` nanoseconds after the Unix epoch, if chrono can
/// represent that time (`DateTime::from_timestamp`).
pub uninterp spec fn rfc3339_of(secs: i64, nanos: u32) -> Option<Seq<char>>;

/// Formats a UTC time as RFC 3339 text with chrono: `None` when
/// `DateTime::from_timestamp` cannot represent the time, otherwise the text
/// of `DateTime::to_rfc3339`.
#[verifier::external_body]
fn utc_rfc3339(secs: i64, nanos: u32) -> (r: Option<String>)
    ensures
        match r {
            Some(t) => rfc3339_of(secs, nanos) == Some(t@),
            None => rfc3339_of(secs, nanos) is None,
        },
{
    match chrono::DateTime::from_timestamp(secs, nanos) {
        Some(d) => Some(d.to_rfc3339()),
        None => None,
    }
}

/// Whether a span of `hours` hours can be made into a chrono duration
/// (whose seconds are bounded by `i64::MAX / 1000`).
pub open spec fn hours_in_range(hours: int) -> bool {
    -(i64::MAX / 1000) <= hours * 3600 <= i64::MAX / 1000
}

/// Start and end, as RFC 3339 texts, of the `hours` hours before the
/// UTC time `secs` seconds and `nanos` nanoseconds after the epoch; `None`
/// when either end cannot be represented.
pub fn history_window_at(secs: i64, nanos: u32, hours: i64) -> (r: Option<(String, String)>)
    requires
        hours_in_range(hours as int),
    ensures
        match r {
            Some((start, end)) => i64::MIN <= secs - hours * 3600 <= i64::MAX && rfc3339_of(
                (secs - hours * 3600) as i64,
                nanos,
            ) == Some(start@) && rfc3339_of(secs, nanos) == Some(end@),
            None => !(i64::MIN <= secs - hours * 3600 <= i64::MAX) || rfc3339_of(
                (secs - hours * 3600) as i64,
                nanos,
            ) is None || rfc3339_of(secs, nanos) is None,
        },
{
    let start: i128 = (secs as i128) - (hours as i128) * 3600;
    if start < i64::MIN as i128 || start > i64::MAX as i128 {
        return None;
    }
    let start_text = utc_rfc3339(start as i64, nanos);
    let end_text = utc_rfc3339(secs, nanos);
    match (start_text, end_text) {
        (Some(s), Some(e)) => Some((s, e)),
        _ => None,
    }
}

} // verus!
