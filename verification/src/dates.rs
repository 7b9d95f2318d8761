//! How stored message dates (seconds since the Unix epoch, UTC) are shown, through
//! chrono.

use vstd::prelude::*;

use crate::text::owned;

verus! {

/// The pattern of the date column in message listings.
pub open spec fn listing_pattern() -> Seq<char> {
    "%Y-%m-%d %H:%M"@
}

/// The pattern of the date line of a shown message.
pub open spec fn detail_pattern() -> Seq<char> {
    "%Y-%m-%d %H:%M:%S UTC"@
}

/// What chrono writes for the UTC instant `seconds` after the epoch under a `strftime`
/// pattern (`DateTime::from_timestamp(seconds, 0)` formatted), or `None` when the
/// number of seconds lies outside chrono's range.
pub uninterp spec fn utc_text(seconds: i64, pattern: Seq<char>) -> Option<Seq<char>>;

/// Calls `chrono::DateTime::from_timestamp(seconds, 0)` and formats the instant with
/// `pattern` (one of the two patterns above, which chrono always renders). Claimed of
/// it: the result is `utc_text` of the seconds and the pattern.
#[verifier::external_body]
fn format_utc(seconds: i64, pattern: &str) -> (r: Option<String>)
    requires
        pattern@ == listing_pattern() || pattern@ == detail_pattern(),
    ensures
        match r {
            Some(t) => utc_text(seconds, pattern@) == Some(t@),
            None => utc_text(seconds, pattern@) is None,
        },
{
    match chrono::DateTime::from_timestamp(seconds, 0) {
        Some(d) => Some(d.format(pattern).to_string()),
        None => None,
    }
}

/// The date text under `pattern`, `?` when the instant cannot be represented.
pub open spec fn shown_date(seconds: i64, pattern: Seq<char>) -> Seq<char> {
    match utc_text(seconds, pattern) {
        Some(t) => t,
        None => "?"@,
    }
}

/// The date column of a message listing (`YYYY-MM-DD HH:MM`), `?` when the stored
/// date cannot be represented.
pub fn listing_date(seconds: i64) -> (r: String)
    ensures
        r@ == shown_date(seconds, listing_pattern()),
{
    proof {
        reveal_strlit("%Y-%m-%d %H:%M");
    }
    match format_utc(seconds, "%Y-%m-%d %H:%M") {
        Some(t) => t,
        None => owned("?"),
    }
}

/// The date line of a shown message (`YYYY-MM-DD HH:MM:SS UTC`), `?` when the stored
/// date cannot be represented.
pub fn detail_date(seconds: i64) -> (r: String)
    ensures
        r@ == shown_date(seconds, detail_pattern()),
{
    proof {
        reveal_strlit("%Y-%m-%d %H:%M:%S UTC");
    }
    match format_utc(seconds, "%Y-%m-%d %H:%M:%S UTC") {
        Some(t) => t,
        None => owned("?"),
    }
}

} // verus!
