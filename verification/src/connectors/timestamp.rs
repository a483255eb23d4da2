//! Instants: milliseconds since the epoch, read from numbers and from
//! RFC 3339 texts.

use crate::connectors::json::Json;
use vstd::prelude::*;

verus! {

/// The instant that the RFC 3339 text `text` names, in milliseconds since
/// the epoch; `None` if `text` is no RFC 3339 date and time.
pub uninterp spec fn rfc3339_millis(text: Seq<char>) -> Option<i64>;

/// The instant that `text` names, if it is an RFC 3339 date and time.
///
/// Calls `chrono::DateTime::parse_from_rfc3339`, which carries the offset
/// that the text gives, and `DateTime::timestamp_millis` on what it returns:
/// the milliseconds between 1970-01-01T00:00:00Z and that instant, whole
/// milliseconds only. The same text gives the same instant.
#[verifier::external_body]
fn rfc3339_instant(text: &str) -> (millis: Option<i64>)
    ensures
        millis == rfc3339_millis(text@),
{
    match chrono::DateTime::parse_from_rfc3339(text) {
        Ok(instant) => Some(instant.timestamp_millis()),
        Err(_) => None,
    }
}

/// The instant that a JSON value gives: an integer is taken as milliseconds
/// since the epoch, a string is read as RFC 3339; anything else, or nothing,
/// gives none.
pub open spec fn instant_of(value: Option<Json>) -> Option<i64> {
    match value {
        Some(Json::Number(Some(n))) => Some(n),
        Some(Json::Text(s)) => rfc3339_millis(s@),
        _ => None,
    }
}

/// The instant that `text` names, if it is an RFC 3339 date and time.
pub fn parse_rfc3339(text: &str) -> (millis: Option<i64>)
    ensures
        millis == rfc3339_millis(text@),
{
    rfc3339_instant(text)
}

/// The instant that a JSON value gives.
pub fn parse_timestamp(value: Option<&Json>) -> (millis: Option<i64>)
    ensures
        millis == instant_of(
            match value {
                Some(v) => Some(*v),
                None => None,
            },
        ),
{
    match value {
        Some(Json::Number(Some(n))) => Some(*n),
        Some(Json::Text(s)) => rfc3339_instant(s.as_str()),
        _ => None,
    }
}

} // verus!
