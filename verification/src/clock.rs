//! Times as text.

use vstd::prelude::*;
use time::format_description::well_known::Rfc3339;
use time::OffsetDateTime;
use crate::text::{opt_view, trim, trimmed};

verus! {

/// A time in seconds since the epoch in the notation of RFC 3339, where it has one.
pub uninterp spec fn rfc3339_of(unix_timestamp: i64) -> Option<Seq<char>>;

/// A time in nanoseconds since the epoch in the notation of RFC 3339, where it has one.
pub uninterp spec fn rfc3339_of_nanos(nanos: i128) -> Option<Seq<char>>;

/// A time in the notation of RFC 3339, written anew; none where the text is no such time.
pub uninterp spec fn rfc3339_normalized(text: Seq<char>) -> Option<Seq<char>>;

/// `time::OffsetDateTime::from_unix_timestamp`, formatted by `Rfc3339`; none where
/// either fails.
#[verifier::external_body]
fn format_unix_timestamp(unix_timestamp: i64) -> (r: Option<String>)
    ensures
        opt_view(r) == rfc3339_of(unix_timestamp),
{
    OffsetDateTime::from_unix_timestamp(unix_timestamp).ok()?.format(&Rfc3339).ok()
}

/// `time::OffsetDateTime::from_unix_timestamp_nanos`, formatted by `Rfc3339`; none where
/// either fails.
#[verifier::external_body]
fn format_unix_nanos(nanos: i128) -> (r: Option<String>)
    ensures
        opt_view(r) == rfc3339_of_nanos(nanos),
{
    OffsetDateTime::from_unix_timestamp_nanos(nanos).ok()?.format(&Rfc3339).ok()
}

/// `chrono::DateTime::parse_from_rfc3339`, written back by `to_rfc3339`; none where the
/// text cannot be parsed.
#[verifier::external_body]
fn reformat_rfc3339(text: &str) -> (r: Option<String>)
    ensures
        opt_view(r) == rfc3339_normalized(text@),
{
    chrono::DateTime::parse_from_rfc3339(text).ok().map(|time| time.to_rfc3339())
}

/// The time of a message.
pub fn render_message_time(unix_timestamp: i64) -> (r: Option<String>)
    ensures
        opt_view(r) == rfc3339_of(unix_timestamp),
{
    format_unix_timestamp(unix_timestamp)
}

/// The time at which a file was changed.
pub fn system_time_rfc3339(nanos: i128) -> (r: Option<String>)
    ensures
        opt_view(r) == rfc3339_of_nanos(nanos),
{
    format_unix_nanos(nanos)
}

/// The time of the clock; the epoch where it has no notation.
pub fn now_rfc3339(nanos: i128) -> (r: String)
    ensures
        r@ == match rfc3339_of_nanos(nanos) {
            Some(t) => t,
            None => "1970-01-01T00:00:00Z"@,
        },
{
    match format_unix_nanos(nanos) {
        Some(t) => t,
        None => "1970-01-01T00:00:00Z".to_owned(),
    }
}

/// What is made of a time that a client states: blank text and text that is no time
/// count as none.
pub open spec fn client_time(t: Option<Seq<char>>) -> Option<Seq<char>> {
    match t {
        Some(s) => if trimmed(s).len() == 0 {
            None
        } else {
            rfc3339_normalized(trimmed(s))
        },
        None => None,
    }
}

/// The time that a client states for a message.
pub fn normalized_client_message_time(message_time: &Option<String>) -> (r: Option<String>)
    ensures
        opt_view(r) == client_time(opt_view(*message_time)),
{
    match message_time {
        Some(t) => {
            let value: &str = trim(t.as_str());
            if value.is_empty() {
                None
            } else {
                reformat_rfc3339(value)
            }
        },
        None => None,
    }
}

/// The time of a message: what the client states, else the present.
pub fn message_time_or_now(message_time: &Option<String>, now: String) -> (r: String)
    ensures
        r@ == match client_time(opt_view(*message_time)) {
            Some(t) => t,
            None => now@,
        },
{
    match normalized_client_message_time(message_time) {
        Some(t) => t,
        None => now,
    }
}

} // verus!
