//! Points in time.
use vstd::prelude::*;

verus! {

/// A point in time: seconds since the Unix epoch, and nanoseconds past them.
#[derive(Debug, Clone, Copy, PartialEq, Eq, Structural)]
pub struct Timestamp {
    pub secs: i64,
    pub nanos: u32,
}

/// The first second of the calendar's range: the start of the year -262143.
pub const MIN_SECS: i64 = -8334601228800;

/// The last second of the calendar's range: the end of the year 262142.
pub const MAX_SECS: i64 = 8210266876799;

/// `chrono::DateTime::<Utc>::from_timestamp` with no nanoseconds: the point in
/// time that many seconds after the epoch, where the calendar reaches that far.
/// It reads back as the same number of seconds.
#[verifier::external_body]
pub(crate) fn from_unix(secs: i64) -> (r: Option<Timestamp>)
    ensures
        match r {
            Some(t) => MIN_SECS <= secs <= MAX_SECS && t.secs == secs && t.nanos == 0,
            None => !(MIN_SECS <= secs <= MAX_SECS),
        },
{
    match chrono::DateTime::<chrono::Utc>::from_timestamp(secs, 0) {
        Some(d) => Some(Timestamp { secs: d.timestamp(), nanos: d.timestamp_subsec_nanos() }),
        None => None,
    }
}

/// The RFC 3339 text of a point in time, as `chrono` writes it; none where the
/// calendar does not reach.
pub uninterp spec fn rfc3339_of(secs: i64, nanos: u32) -> Option<Seq<char>>;

/// `chrono::DateTime::<Utc>::to_rfc3339` of the point in time, which depends on
/// the seconds and the nanoseconds alone.
#[verifier::external_body]
pub(crate) fn to_rfc3339(t: Timestamp) -> (r: Option<String>)
    ensures
        match r {
            Some(s) => rfc3339_of(t.secs, t.nanos) == Some(s@),
            None => rfc3339_of(t.secs, t.nanos) is None,
        },
{
    match chrono::DateTime::<chrono::Utc>::from_timestamp(t.secs, t.nanos) {
        Some(d) => Some(d.to_rfc3339()),
        None => None,
    }
}

/// The RFC 3339 text of a point in time; empty where the calendar does not reach.
pub open spec fn text_of_time(t: Timestamp) -> Seq<char> {
    match rfc3339_of(t.secs, t.nanos) {
        Some(s) => s,
        None => Seq::empty(),
    }
}

/// Writes a point in time by RFC 3339; the empty text where the calendar does not
/// reach.
pub fn time_text(t: Timestamp) -> (r: String)
    ensures
        r@ == text_of_time(t),
{
    match to_rfc3339(t) {
        Some(s) => s,
        None => String::new(),
    }
}

} // verus!
