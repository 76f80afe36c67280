//! Instants and the wall clock.
//!
//! An instant is a number of non-leap milliseconds since the Unix epoch,
//! stored as an `i64`. Instants are persisted as timezone-aware, sortable
//! RFC 3339 text; `rfc3339_text_of` names that text form.

use vstd::prelude::*;

verus! {

/// The first instant of calendar year 0000. Instants between this and
/// `MAX_ENCODABLE_INSTANT` fall in years 0000 through 9999, whose text form
/// carries an unsigned four-digit year: the form that is both rendered and
/// parsed back. Years outside that range are rendered with a signed expanded
/// year that the strict parser does not read back.
pub const MIN_ENCODABLE_INSTANT: i64 = -62_167_219_200_000;

/// The last millisecond of calendar year 9999.
pub const MAX_ENCODABLE_INSTANT: i64 = 253_402_300_799_999;

/// Whether an instant falls in calendar years 0000 through 9999, so that its
/// text form round-trips.
pub open spec fn encodable_instant(m: i64) -> bool {
    MIN_ENCODABLE_INSTANT <= m <= MAX_ENCODABLE_INSTANT
}

/// The RFC 3339 text of an instant, a pure function of the instant alone
/// (the text is always rendered with the UTC offset).
pub uninterp spec fn rfc3339_text_of(m: i64) -> Seq<char>;

/// Relies on chrono::Local::now and DateTime::timestamp_millis: the current
/// wall-clock instant. Nothing is promised of it; the clock may read
/// anything. Like the library it is taken from, it aborts if the system
/// clock reads before the Unix epoch.
#[verifier::external_body]
fn now_millis() -> (r: i64) {
    chrono::Local::now().timestamp_millis()
}

/// The current wall-clock instant, clamped into the encodable range.
pub fn current_instant() -> (r: i64)
    ensures
        encodable_instant(r),
{
    let n = now_millis();
    if n < MIN_ENCODABLE_INSTANT {
        MIN_ENCODABLE_INSTANT
    } else if n > MAX_ENCODABLE_INSTANT {
        MAX_ENCODABLE_INSTANT
    } else {
        n
    }
}

/// Relies on chrono::DateTime::<Utc>::from_timestamp_millis and to_rfc3339:
/// an in-range number of milliseconds renders as its RFC 3339 text, a pure
/// function of the instant alone; within years 0000-9999 the year is written
/// unsigned with four digits.
#[verifier::external_body]
pub(crate) fn instant_text(m: i64) -> (r: String)
    requires
        encodable_instant(m),
    ensures
        r@ == rfc3339_text_of(m),
{
    chrono::DateTime::<chrono::Utc>::from_timestamp_millis(m).unwrap().to_rfc3339()
}

/// Relies on chrono::DateTime::parse_from_rfc3339 and timestamp_millis:
/// parsing the RFC 3339 text of an in-range instant yields that instant
/// back. The parser reads the year as exactly four digits, which is how the
/// text of every instant in years 0000-9999 is written.
#[verifier::external_body]
pub(crate) fn parse_instant(s: &str) -> (r: Option<i64>)
    ensures
        forall|m: i64|
            encodable_instant(m) && s@ == #[trigger] rfc3339_text_of(m) ==> r == Some(m),
{
    match chrono::DateTime::parse_from_rfc3339(s) {
        Ok(dt) => Some(dt.timestamp_millis()),
        Err(_) => None,
    }
}

/// The update instant written by a save at instant `now`: the save instant,
/// held at or above the creation instant so that the update instant is
/// always at least the creation instant.
pub open spec fn refreshed_updated_at(created_at: i64, now: i64) -> i64 {
    if now >= created_at {
        now
    } else {
        created_at
    }
}

} // verus!
