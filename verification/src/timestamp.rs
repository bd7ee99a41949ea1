//! Points in time as plain numbers, and their RFC 3339 text.

use vstd::prelude::*;

verus! {

/// A point in time.
///
/// `secs` counts whole seconds since 1970-01-01T00:00:00Z, `nanos` the
/// nanoseconds past that second, and `offset` is the distance from UTC, in
/// seconds east, of the zone in which the time is written down. Two values
/// with the same `secs` and `nanos` are the same instant, whatever their
/// offsets.
#[derive(Clone, Copy, Debug, PartialEq, Eq, Structural)]
pub struct Timestamp {
    pub secs: i64,
    pub nanos: u32,
    pub offset: i32,
}

impl Timestamp {
    /// The instant in nanoseconds since the Unix epoch.
    pub open spec fn instant_nanos(self) -> int {
        self.secs * 1_000_000_000 + self.nanos
    }

    /// The same instant, written down in UTC.
    pub open spec fn in_utc(self) -> Timestamp {
        Timestamp { secs: self.secs, nanos: self.nanos, offset: 0 }
    }

    /// Nanoseconds from `earlier` to `self`; negative where `self` comes first.
    pub open spec fn nanos_since(self, earlier: Timestamp) -> int {
        self.instant_nanos() - earlier.instant_nanos()
    }

    /// Whether at least `minutes` minutes lie between `earlier` and `self`.
    pub fn is_minutes_after(&self, earlier: &Timestamp, minutes: i64) -> (r: bool)
        ensures
            r == (self.nanos_since(*earlier) >= minutes * 60_000_000_000),
    {
        let secs: i128 = self.secs as i128 - earlier.secs as i128;
        let nanos: i128 = self.nanos as i128 - earlier.nanos as i128;
        let elapsed: i128 = secs * 1_000_000_000 + nanos;
        let wanted: i128 = minutes as i128 * 60_000_000_000;
        elapsed >= wanted
    }
}

/// The point in time that `chrono` reads out of `text` as RFC 3339, where it
/// reads one.
pub uninterp spec fn rfc3339_instant(text: Seq<char>) -> Option<Timestamp>;

/// The RFC 3339 text that `chrono` writes for the point in time with these
/// seconds, nanoseconds and offset, where it can hold such a point.
pub uninterp spec fn rfc3339_text(secs: i64, nanos: u32, offset: i32) -> Option<Seq<char>>;

/// Reads an RFC 3339 date and time with `chrono::DateTime::parse_from_rfc3339`.
///
/// Trusted: the result is what `chrono` makes of the text, and nothing is
/// proved of it. `None` stands for any error of the parser.
#[verifier::external_body]
pub(crate) fn parse_rfc3339(text: &str) -> (r: Option<Timestamp>)
    ensures
        r == rfc3339_instant(text@),
{
    match chrono::DateTime::parse_from_rfc3339(text) {
        Ok(at) => Some(
            Timestamp {
                secs: at.timestamp(),
                nanos: at.timestamp_subsec_nanos(),
                offset: at.offset().local_minus_utc(),
            },
        ),
        Err(_) => None,
    }
}

/// Writes a point in time with `chrono::DateTime::to_rfc3339`.
///
/// Trusted: the result is the text `chrono` writes, and nothing is proved of
/// it. `None` comes back where `chrono::DateTime::from_timestamp` or
/// `chrono::FixedOffset::east_opt` refuses the numbers.
#[verifier::external_body]
pub(crate) fn to_rfc3339(at: &Timestamp) -> (r: Option<String>)
    ensures
        r.deep_view() == rfc3339_text(at.secs, at.nanos, at.offset),
{
    let utc = chrono::DateTime::from_timestamp(at.secs, at.nanos)?;
    let zone = chrono::FixedOffset::east_opt(at.offset)?;
    Some(utc.with_timezone(&zone).to_rfc3339())
}

/// Reads the clock: `std::time::SystemTime::elapsed` gives the time that has
/// passed since the Unix epoch, and `chrono::DateTime::from_timestamp` makes
/// a time in UTC of it.
///
/// Trusted. Two calls may differ, and all that is claimed of a reading is
/// that its offset is zero, which is the offset that `chrono::Utc` has.
/// `None` comes back where the clock stands before the epoch, or so far
/// from it that `chrono` holds no such time; `chrono::Utc::now` takes the
/// same two steps and stops the program there.
#[verifier::external_body]
pub(crate) fn now() -> (r: Option<Timestamp>)
    ensures
        r matches Some(at) ==> at.offset == 0,
{
    let since = std::time::UNIX_EPOCH.elapsed().ok()?;
    let secs: i64 = i64::try_from(since.as_secs()).ok()?;
    let at = chrono::DateTime::from_timestamp(secs, since.subsec_nanos())?;
    let zone = chrono::Offset::fix(at.offset());
    Some(
        Timestamp {
            secs: at.timestamp(),
            nanos: at.timestamp_subsec_nanos(),
            offset: zone.local_minus_utc(),
        },
    )
}

} // verus!
