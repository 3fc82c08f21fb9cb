//! Timestamp text. The server core never reads a clock: every operation
//! takes the current time in milliseconds since the Unix epoch from its
//! caller. This module only renders such a time as ISO-8601 UTC text for
//! protocol replies and status snapshots.

use vstd::prelude::*;

verus! {

/// The ISO-8601 UTC text of a millisecond timestamp. What the characters
/// are is a function of the timestamp alone.
pub uninterp spec fn iso_utc_of(ms: u64) -> Seq<char>;

/// Relies on chrono's `DateTime::from_timestamp_millis` and
/// `to_rfc3339_opts`: ISO-8601 / RFC 3339 UTC text with millisecond
/// precision, a function of the timestamp alone.
#[verifier::external_body]
pub(crate) fn rfc3339_utc_millis(ms: u64) -> (r: String)
    ensures
        r@ == iso_utc_of(ms),
{
    match i64::try_from(ms).ok().and_then(chrono::DateTime::from_timestamp_millis) {
        Option::Some(dt) => dt.to_rfc3339_opts(chrono::SecondsFormat::Millis, true),
        Option::None => String::new(),
    }
}

} // verus!
