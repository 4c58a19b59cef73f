//! Instants as plain integers, read from RFC 3339 text by chrono.

use vstd::prelude::*;

verus! {

/// An instant: whole seconds since the Unix epoch (UTC) and the nanoseconds
/// past that second.
#[derive(Clone, Copy, Debug, PartialEq, Eq, Structural)]
pub struct Timestamp {
    pub seconds: i64,
    pub nanos: u32,
}

/// The instant that chrono reads from RFC 3339 text, if it reads one.
pub uninterp spec fn rfc3339_of(text: Seq<char>) -> Option<Timestamp>;

/// Relies on chrono's `FromStr` for `DateTime<Utc>` (the parse that chrono's
/// serde support uses): relaxed RFC 3339, converted to UTC.
#[verifier::external_body]
pub(crate) fn parse_timestamp(text: &str) -> (r: Option<Timestamp>)
    ensures
        r == rfc3339_of(text@),
{
    text.parse::<chrono::DateTime<chrono::Utc>>().ok().map(
        |d| Timestamp { seconds: d.timestamp(), nanos: d.timestamp_subsec_nanos() },
    )
}

/// `a` comes strictly after `b`.
pub open spec fn later(a: Timestamp, b: Timestamp) -> bool {
    a.seconds > b.seconds || (a.seconds == b.seconds && a.nanos > b.nanos)
}

impl Timestamp {
    /// The epoch itself.
    pub fn epoch() -> (r: Timestamp)
        ensures
            r.seconds == 0 && r.nanos == 0,
    {
        Timestamp { seconds: 0, nanos: 0 }
    }

    /// Whether `self` comes strictly after `other`.
    pub fn is_later_than(&self, other: &Timestamp) -> (r: bool)
        ensures
            r == later(*self, *other),
    {
        self.seconds > other.seconds || (self.seconds == other.seconds && self.nanos > other.nanos)
    }
}

} // verus!
