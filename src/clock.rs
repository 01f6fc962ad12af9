//! Time and identity from outside the library: the wall clock, RFC 3339
//! rendering and random record identifiers.
use vstd::prelude::*;

verus! {

/// Seconds in a calendar day.
pub const SECONDS_PER_DAY: i64 = 86_400;

/// Earliest supported timestamp, about 253,000 years before the epoch.
pub const MIN_TIMESTAMP: i64 = -8_000_000_000_000;

/// Latest supported timestamp, about 253,000 years after the epoch.
pub const MAX_TIMESTAMP: i64 = 8_000_000_000_000;

/// A timestamp (seconds since the Unix epoch) inside the supported range.
pub open spec fn valid_timestamp(t: int) -> bool {
    MIN_TIMESTAMP <= t <= MAX_TIMESTAMP
}

/// The UTC calendar day number of a timestamp (day 0 is 1970-01-01).
pub open spec fn day_of(t: int) -> int {
    t / (SECONDS_PER_DAY as int)
}

/// The calendar day number of a timestamp.
pub fn day_number(t: i64) -> (r: i64)
    ensures
        r == day_of(t as int),
{
    let d = t / SECONDS_PER_DAY;
    if t % SECONDS_PER_DAY < 0 {
        d - 1
    } else {
        d
    }
}

/// The RFC 3339 text of the UTC instant `secs` seconds after the epoch.
pub uninterp spec fn rfc3339_text(secs: int) -> Seq<char>;

/// Relies on chrono's `DateTime::<Utc>::from_timestamp`, which gives `Some`
/// for every second inside its date range (about 262,000 years either side of
/// the epoch), and on `DateTime::to_rfc3339`, whose text depends on the
/// instant alone.
#[verifier::external_body]
pub(crate) fn rfc3339_utc(secs: i64) -> (r: String)
    requires
        valid_timestamp(secs as int),
    ensures
        r@ == rfc3339_text(secs as int),
{
    chrono::DateTime::from_timestamp(secs, 0).map(|d| d.to_rfc3339()).unwrap_or_default()
}

/// The instant an RFC 3339 text denotes, in whole seconds since the epoch, or
/// `None` when the text is not RFC 3339.
pub uninterp spec fn rfc3339_seconds(text: Seq<char>) -> Option<i64>;

/// Relies on chrono's `DateTime::parse_from_rfc3339`, `DateTime::with_timezone`
/// and `DateTime::timestamp`: the instant the text denotes, converted to UTC
/// and truncated to whole seconds; the result depends on the text alone.
#[verifier::external_body]
pub(crate) fn parse_rfc3339(text: &str) -> (r: Option<i64>)
    ensures
        r == rfc3339_seconds(text@),
{
    chrono::DateTime::parse_from_rfc3339(text).ok().map(|d| d.with_timezone(&chrono::Utc).timestamp())
}

/// The start of a look-back window of `days` days ending at `now`, or the
/// earliest representable time when the window reaches further back.
pub open spec fn window_start(now: i64, days: int) -> i64 {
    if now - days * SECONDS_PER_DAY < i64::MIN {
        i64::MIN
    } else {
        (now - days * SECONDS_PER_DAY) as i64
    }
}

/// The start of a look-back window of `days` days ending at `now`.
pub fn look_back(now: i64, days: i64) -> (r: i64)
    requires
        0 <= days <= 36_500,
    ensures
        r == window_start(now, days as int),
{
    let start = now as i128 - days as i128 * 86_400i128;
    if start < i64::MIN as i128 {
        i64::MIN
    } else {
        start as i64
    }
}

/// Whether a timestamp is inside the supported range.
pub fn is_valid_timestamp(t: i64) -> (r: bool)
    ensures
        r == valid_timestamp(t as int),
{
    MIN_TIMESTAMP <= t && t <= MAX_TIMESTAMP
}

/// Relies on chrono's `Utc::now` and `DateTime::timestamp`: the current time
/// in whole seconds since the epoch. Nothing is known of its value.
#[verifier::external_body]
pub(crate) fn current_timestamp() -> (r: i64) {
    chrono::Utc::now().timestamp()
}

/// Relies on uuid's `Uuid::new_v4` and `Uuid::as_u128`: a random version 4
/// identifier. Nothing is known of its value.
#[verifier::external_body]
pub(crate) fn new_record_id() -> (r: u128) {
    uuid::Uuid::new_v4().as_u128()
}

} // verus!
