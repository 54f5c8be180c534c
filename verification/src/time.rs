//! Instants in time, as plain values.
//!
//! A `Timestamp` stands for one instant: seconds since the Unix epoch plus a
//! sub-second nanosecond part.  Parsing an RFC 3339 string and rendering an
//! instant as text are delegated to the `chrono` crate behind trusted
//! wrappers; ordering and equality of instants are the library's own.

use vstd::prelude::*;

verus! {

/// An instant: seconds since the Unix epoch, and nanoseconds within the
/// second.  Compared lexicographically, seconds first.
#[derive(Clone, Copy, Debug, PartialEq, Eq, Structural)]
pub struct Timestamp {
    pub secs: i64,
    pub nanos: u32,
}

impl View for Timestamp {
    type V = (int, int);

    open spec fn view(&self) -> (int, int) {
        (self.secs as int, self.nanos as int)
    }
}

/// `a` is at or before `b`.
pub open spec fn ts_le(a: (int, int), b: (int, int)) -> bool {
    a.0 < b.0 || (a.0 == b.0 && a.1 <= b.1)
}

/// `a` is strictly before `b`.
pub open spec fn ts_lt(a: (int, int), b: (int, int)) -> bool {
    a.0 < b.0 || (a.0 == b.0 && a.1 < b.1)
}

impl Timestamp {
    /// `self` is strictly before `other`.
    pub fn lt(&self, other: &Timestamp) -> (r: bool)
        ensures
            r == ts_lt(self@, other@),
    {
        self.secs < other.secs || (self.secs == other.secs && self.nanos < other.nanos)
    }
}

/// The instant an RFC 3339 string denotes, or `None` where the string is not
/// a valid RFC 3339 date-and-time; a function of the string alone.
pub uninterp spec fn rfc3339_instant(s: Seq<char>) -> Option<(int, int)>;

/// Relies on chrono's `DateTime::parse_from_rfc3339` (with `to_utc`,
/// `timestamp` and `timestamp_subsec_nanos` converting the parsed value to
/// plain fields): the parsed instant depends on the text alone.
#[verifier::external_body]
pub(crate) fn parse_rfc3339(s: &str) -> (r: Option<Timestamp>)
    ensures
        r is Some <==> rfc3339_instant(s@) is Some,
        r matches Some(t) ==> rfc3339_instant(s@) == Some((t.secs as int, t.nanos as int)),
{
    match chrono::DateTime::parse_from_rfc3339(s) {
        Ok(dt) => {
            let utc = dt.to_utc();
            Some(Timestamp { secs: utc.timestamp(), nanos: utc.timestamp_subsec_nanos() })
        },
        Err(_) => None,
    }
}

/// The RFC 3339 text chrono renders an instant to; a function of the
/// instant alone.
pub uninterp spec fn rfc3339_display(secs: int, nanos: int) -> Seq<char>;

/// Relies on chrono's `DateTime::from_timestamp` and `to_rfc3339`: the text
/// depends on the instant alone (an instant out of chrono's range renders as
/// the empty string).
#[verifier::external_body]
pub(crate) fn format_rfc3339(t: &Timestamp) -> (r: String)
    ensures
        r@ == rfc3339_display(t.secs as int, t.nanos as int),
{
    match chrono::DateTime::<chrono::Utc>::from_timestamp(t.secs, t.nanos) {
        Some(dt) => dt.to_rfc3339(),
        None => String::new(),
    }
}

/// Relies on chrono's `Utc::now` and `to_rfc3339`.  The result depends on
/// the clock, so nothing is promised of it.
#[verifier::external_body]
pub(crate) fn now_string() -> String {
    chrono::Utc::now().to_rfc3339()
}

} // verus!
