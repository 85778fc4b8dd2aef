//! Instants of the wall clock, and their RFC 3339 text.

use vstd::prelude::*;

verus! {

/// A reading of the wall clock: whole seconds since 1970-01-01T00:00:00 UTC,
/// and the nanoseconds into that second.
#[derive(Clone, Copy, Debug, PartialEq, Eq, Structural)]
pub struct Instant {
    pub secs: i64,
    pub nanos: u32,
}

impl Instant {
    /// Whether `self` is `other` or earlier.
    pub open spec fn le(self, other: Instant) -> bool {
        self.secs < other.secs || (self.secs == other.secs && self.nanos <= other.nanos)
    }

    /// The instant `nanos` nanoseconds into second `secs`.
    pub fn new(secs: i64, nanos: u32) -> (at: Instant)
        ensures
            at == (Instant { secs, nanos }),
    {
        Instant { secs, nanos }
    }

    /// Whether `self` is `other` or earlier.
    pub fn is_at_or_before(&self, other: &Instant) -> (earlier: bool)
        ensures
            earlier == self.le(*other),
    {
        self.secs < other.secs || (self.secs == other.secs && self.nanos <= other.nanos)
    }

    /// The instant that the system's clock shows. Which instant that is, only
    /// the clock knows; it is one that has a calendar date, so it can be
    /// written with [`Instant::to_rfc3339`].
    pub fn now() -> (at: Instant)
        ensures
            rfc3339_text(at.secs, at.nanos) is Some,
    {
        utc_now()
    }

    /// The instant as RFC 3339 text in UTC, such as `2024-05-01T12:00:00.250+00:00`;
    /// `None` where the instant has no calendar date.
    pub fn to_rfc3339(&self) -> (text: Option<String>)
        ensures
            text is Some <==> rfc3339_text(self.secs, self.nanos) is Some,
            text matches Some(t) ==> rfc3339_text(self.secs, self.nanos) == Some(t@),
    {
        format_rfc3339(self.secs, self.nanos)
    }
}

/// What `chrono` writes for the instant `nanos` nanoseconds into second `secs`
/// of the Unix epoch: its RFC 3339 text, or `None` where `chrono` has no date
/// for it.
pub uninterp spec fn rfc3339_text(secs: i64, nanos: u32) -> Option<Seq<char>>;

/// Calls `chrono::DateTime::from_timestamp` and, on the date it gives,
/// `chrono::DateTime::to_rfc3339`.
///
/// Believed, not proved: whether there is a text, and the text, depend on
/// `secs` and `nanos` alone. The date is in UTC, so no time zone of the
/// machine enters; there is no text where `from_timestamp` gives no date.
#[verifier::external_body]
fn format_rfc3339(secs: i64, nanos: u32) -> (text: Option<String>)
    ensures
        text is Some <==> rfc3339_text(secs, nanos) is Some,
        text matches Some(t) ==> rfc3339_text(secs, nanos) == Some(t@),
{
    match chrono::DateTime::from_timestamp(secs, nanos) {
        Some(moment) => Some(moment.to_rfc3339()),
        None => None,
    }
}

/// Calls `chrono::Utc::now` and takes the reading apart with
/// `DateTime::timestamp` and `DateTime::timestamp_subsec_nanos`.
///
/// Believed, not proved: the reading has a date. `Utc::now` makes it with
/// `DateTime::from_timestamp`, which `chrono` documents to give back the date
/// of the two numbers that `timestamp` and `timestamp_subsec_nanos` return.
/// Nothing else is claimed of the reading. `chrono` ends the process where
/// the system's clock stands before 1970.
#[verifier::external_body]
fn utc_now() -> (at: Instant)
    ensures
        rfc3339_text(at.secs, at.nanos) is Some,
{
    let now = chrono::Utc::now();
    Instant { secs: now.timestamp(), nanos: now.timestamp_subsec_nanos() }
}

} // verus!
