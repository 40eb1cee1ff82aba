//! Instants in time, and the conversion of RFC 3339 text into them.

use vstd::prelude::*;

verus! {

/// An instant, counted from 1970-01-01T00:00:00Z.
///
/// `secs` is the number of whole non-leap seconds since the epoch (negative
/// before it) and `nanos` the nanoseconds since the last whole second.
#[derive(Clone, Copy, Debug, PartialEq, Eq, Structural)]
pub struct Timestamp {
    pub secs: i64,
    pub nanos: u32,
}

/// The text of a string that may be absent.
pub open spec fn opt_text(text: Option<String>) -> Option<Seq<char>> {
    match text {
        Some(t) => Some(t@),
        None => None,
    }
}

/// The instant that a text denotes when read as an RFC 3339 date-and-time,
/// as a pair of seconds and nanoseconds since the epoch; `None` where the
/// text is no such date-and-time.
pub uninterp spec fn rfc3339_instant(text: Seq<char>) -> Option<(i64, u32)>;

/// Reads `input` with `chrono::DateTime::parse_from_rfc3339` and, where that
/// succeeds, takes the instant's UTC seconds and sub-second nanoseconds
/// (`timestamp`, `timestamp_subsec_nanos`).
///
/// Trusted: the result is the named instant of the text, which says only
/// that the outcome depends on the text alone.
#[verifier::external_body]
fn rfc3339_parse(input: &str) -> (r: Option<(i64, u32)>)
    ensures
        r == rfc3339_instant(input@),
{
    match chrono::DateTime::parse_from_rfc3339(input) {
        Ok(parsed) => {
            let utc = parsed.with_timezone(&chrono::Utc);
            Some((utc.timestamp(), utc.timestamp_subsec_nanos()))
        },
        Err(_) => None,
    }
}

impl Timestamp {
    /// The epoch itself.
    pub open spec fn spec_epoch() -> Timestamp {
        Timestamp { secs: 0, nanos: 0 }
    }

    /// The epoch itself, 1970-01-01T00:00:00Z.
    #[verifier::when_used_as_spec(spec_epoch)]
    pub fn epoch() -> (t: Timestamp)
        ensures
            t == Timestamp::spec_epoch(),
    {
        Timestamp { secs: 0, nanos: 0 }
    }
}

/// The instant that `text` denotes, where it denotes one.
pub open spec fn instant_of(text: Seq<char>) -> Option<Timestamp> {
    match rfc3339_instant(text) {
        Some((secs, nanos)) => Some(Timestamp { secs, nanos }),
        None => None,
    }
}

/// Reads an RFC 3339 date-and-time, such as `2024-01-01T00:00:00Z`.
///
/// Returns `None` exactly where the text is not such a date-and-time.
pub fn parse_system_time(input: &str) -> (r: Option<Timestamp>)
    ensures
        r == instant_of(input@),
{
    match rfc3339_parse(input) {
        Some((secs, nanos)) => Some(Timestamp { secs, nanos }),
        None => None,
    }
}

} // verus!
