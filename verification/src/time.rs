//! Instants as text.
use vstd::prelude::*;

verus! {

/// The RFC 3339 text, with millisecond precision and a `Z` suffix, of the
/// instant that lies the given number of milliseconds after the Unix epoch;
/// `None` where `chrono` cannot represent the instant.
pub uninterp spec fn rfc3339_millis(millis: i64) -> Option<Seq<char>>;

/// `chrono::DateTime::from_timestamp_millis`, and on the instant it gives
/// `DateTime::to_rfc3339_opts` with `SecondsFormat::Millis` and `use_z`.
#[verifier::external_body]
fn format_rfc3339_millis(millis: i64) -> (r: Option<String>)
    ensures
        match r {
            Some(text) => rfc3339_millis(millis) == Some(text@),
            None => rfc3339_millis(millis) is None,
        },
{
    match chrono::DateTime::from_timestamp_millis(millis) {
        Some(t) => Some(t.to_rfc3339_opts(chrono::SecondsFormat::Millis, true)),
        None => None,
    }
}

/// Writes an instant, given in milliseconds since the Unix epoch, as RFC 3339
/// text with millisecond precision in UTC.
pub fn encode_date_time(millis: i64) -> (r: Option<String>)
    ensures
        match r {
            Some(text) => rfc3339_millis(millis) == Some(text@),
            None => rfc3339_millis(millis) is None,
        },
{
    format_rfc3339_millis(millis)
}

} // verus!
