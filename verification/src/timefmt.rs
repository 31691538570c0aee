//! The approximate creation time carried in a key detail: a Unix timestamp
//! rendered as an RFC 3339 text. The rendering itself comes from the chrono
//! crate; its result is named, not restated.

use vstd::prelude::*;

verus! {

/// What chrono renders for a Unix timestamp (seconds, UTC, zero nanoseconds):
/// the RFC 3339 text, or nothing when the timestamp is out of the range chrono
/// can represent.
pub uninterp spec fn rfc3339_utc_of(secs: int) -> Option<Seq<char>>;

/// Relies on chrono's `TimeZone::timestamp_opt` on `Utc`, `MappedLocalTime::single`
/// and `DateTime::to_rfc3339`: for UTC with zero nanoseconds the chain returns
/// `Some` RFC 3339 text exactly for in-range timestamps, and the text depends
/// on the timestamp alone.
#[verifier::external_body]
fn rfc3339_utc(secs: i64) -> (r: Option<String>)
    ensures
        (r is Some) == (rfc3339_utc_of(secs as int) is Some),
        r matches Some(s) ==> rfc3339_utc_of(secs as int) == Some(s@),
{
    match chrono::TimeZone::timestamp_opt(&chrono::Utc, secs, 0).single() {
        Some(dt) => Some(dt.to_rfc3339()),
        None => None,
    }
}

/// The creation-time text for a key detail: the RFC 3339 rendering of
/// `last_modified`, falling back to that of `now` when `last_modified` is out
/// of range, and to the empty string when both are (which no clock-supplied
/// `now` is).
pub fn create_time_string(last_modified: i64, now: i64) -> (r: String)
    ensures
        rfc3339_utc_of(last_modified as int) matches Some(s) ==> r@ == s,
        rfc3339_utc_of(last_modified as int) is None ==> (rfc3339_utc_of(now as int) matches Some(
            s,
        ) ==> r@ == s),
        rfc3339_utc_of(last_modified as int) is None && rfc3339_utc_of(now as int) is None ==> r@
            == Seq::<char>::empty(),
{
    match rfc3339_utc(last_modified) {
        Some(s) => s,
        None => match rfc3339_utc(now) {
            Some(s) => s,
            None => String::new(),
        },
    }
}

} // verus!
