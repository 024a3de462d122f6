//! Instants in time, as plain values: seconds since the Unix epoch plus a
//! subsecond nanosecond count. The RFC 3339 text form that the annotation
//! convention uses is read and produced through chrono.

use vstd::prelude::*;

verus! {

/// An instant: Unix-epoch seconds and nanoseconds into the second.
#[derive(Clone, Copy, Debug, PartialEq, Eq, Structural)]
pub struct Timestamp {
    /// Whole seconds since the Unix epoch, UTC.
    pub secs: i64,
    /// Nanoseconds into the second. A value of one billion or more encodes
    /// a leap second, so the bound is two billion.
    pub nanos: u32,
}

impl Timestamp {
    /// The nanosecond field stays below two billion.
    pub open spec fn wf(&self) -> bool {
        self.nanos < 2_000_000_000
    }

    /// `self` is no later than `other`.
    pub open spec fn spec_le(&self, other: &Timestamp) -> bool {
        self.secs < other.secs || (self.secs == other.secs && self.nanos <= other.nanos)
    }

    /// Decides `spec_le`.
    pub fn le(&self, other: &Timestamp) -> (r: bool)
        ensures
            r == self.spec_le(other),
    {
        self.secs < other.secs || (self.secs == other.secs && self.nanos <= other.nanos)
    }
}

/// What chrono's RFC 3339 parser returns on a given text: `None` when the
/// text is malformed, otherwise the denoted instant as epoch seconds and
/// subsecond nanoseconds. The outcome depends on the text alone.
pub uninterp spec fn rfc3339_parse(s: Seq<char>) -> Option<(i64, u32)>;

/// Relies on chrono's `DateTime::parse_from_rfc3339`, with `timestamp` and
/// `timestamp_subsec_nanos` reducing the parsed value to epoch seconds (UTC)
/// and subsecond nanoseconds; the subsecond count stays below two billion
/// (at most a leap second above the usual bound).
#[verifier::external_body]
pub fn parse_rfc3339(s: &str) -> (r: Option<Timestamp>)
    ensures
        (match rfc3339_parse(s@) {
            Some(p) => r == Some(Timestamp { secs: p.0, nanos: p.1 }) && p.1 < 2_000_000_000,
            None => r is None,
        }),
{
    match chrono::DateTime::parse_from_rfc3339(s) {
        Ok(dt) => Some(Timestamp { secs: dt.timestamp(), nanos: dt.timestamp_subsec_nanos() }),
        Err(_) => None,
    }
}

/// Reads the system clock (std's `SystemTime::now`) and relies on chrono's
/// `DateTime::from_timestamp` and `DateTime::to_rfc3339` (with `timestamp`
/// and `timestamp_subsec_nanos`) to render the instant. Yields `None` instead
/// of a stamp when the clock stands before the Unix epoch or beyond chrono's
/// range. Nothing is promised about which instant the clock reads; the text
/// is promised to parse back to the stamped instant only below the year
/// 10000, because chrono renders later years with five or more digits, which
/// its own RFC 3339 parser refuses.
#[verifier::external_body]
pub fn now_rfc3339() -> (r: Option<(Timestamp, String)>)
    ensures
        (match r {
            Some(p) => {
                &&& p.0.wf()
                &&& 0 <= p.0.secs
                &&& p.0.secs < 253402300800 ==> rfc3339_parse(p.1@) == Some((p.0.secs, p.0.nanos))
            },
            None => true,
        }),
{
    let since_epoch = std::time::SystemTime::now().duration_since(std::time::UNIX_EPOCH).ok()?;
    let secs = i64::try_from(since_epoch.as_secs()).ok()?;
    let dt = chrono::DateTime::from_timestamp(secs, since_epoch.subsec_nanos())?;
    Some((Timestamp { secs: dt.timestamp(), nanos: dt.timestamp_subsec_nanos() }, dt.to_rfc3339()))
}

} // verus!
