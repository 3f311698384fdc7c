//! Instants in UTC, held as the number of non-leap seconds since the Unix
//! epoch and the nanoseconds within that second, with their RFC 3339 text.
use vstd::prelude::*;
use chrono::{DateTime, Local, Utc};

verus! {

/// The first second that `chrono` can represent (January 1 of year -262143, UTC).
pub const MIN_SECS: i64 = -8334601228800i64;

/// The last second that `chrono` can represent (December 31 of year 262142, 23:59:59 UTC).
pub const MAX_SECS: i64 = 8210266876799i64;

/// First second of year 0000 (UTC).
pub const YEAR_0000_SECS: i64 = -62167219200i64;

/// Last second of year 9999 (UTC).
pub const YEAR_9999_END_SECS: i64 = 253402300799i64;

/// An instant in UTC.
///
/// `nanos` may reach past one second to stand for a leap second, but only in
/// the last second of a minute.
#[derive(Clone, Copy, Debug, PartialEq, Eq, Structural)]
pub struct Timestamp {
    pub secs: i64,
    pub nanos: u32,
}

impl Timestamp {
    /// The instant lies in the range that `chrono` represents, with a
    /// nanosecond part that `chrono` accepts.
    pub open spec fn valid(self) -> bool {
        &&& MIN_SECS <= self.secs <= MAX_SECS
        &&& (self.nanos < 1_000_000_000 || (self.nanos < 2_000_000_000 && self.secs % 60 == 59))
    }

    /// The instant lies in years 0000 to 9999, the years RFC 3339 writes.
    pub open spec fn in_rfc3339_years(self) -> bool {
        YEAR_0000_SECS <= self.secs <= YEAR_9999_END_SECS
    }

    /// Chronological order.
    pub open spec fn earlier(self, other: Timestamp) -> bool {
        self.secs < other.secs || (self.secs == other.secs && self.nanos < other.nanos)
    }

    /// Whether the instant is one that `chrono` represents.
    pub fn is_valid(&self) -> (res: bool)
        ensures
            res == self.valid(),
    {
        if self.secs < MIN_SECS || self.secs > MAX_SECS {
            return false;
        }
        if self.nanos < 1_000_000_000 {
            return true;
        }
        let offset = (self.secs - MIN_SECS) as u64;
        proof {
            let s = self.secs as int;
            assert((s - MIN_SECS) % 60 == s % 60) by (nonlinear_arith)
                requires
                    MIN_SECS == 60 * (-138910020480int),
            ;
        }
        self.nanos < 2_000_000_000 && offset % 60 == 59
    }

    /// Whether `self` is strictly earlier than `other`.
    pub fn is_earlier(&self, other: &Timestamp) -> (res: bool)
        ensures
            res == self.earlier(*other),
    {
        self.secs < other.secs || (self.secs == other.secs && self.nanos < other.nanos)
    }
}

/// The text that `chrono`'s `DateTime::<Utc>::to_rfc3339` writes for the
/// instant `(secs, nanos)`.
pub uninterp spec fn rfc3339_text(secs: i64, nanos: u32) -> Seq<char>;

/// What `chrono`'s `DateTime::parse_from_rfc3339` reads from a text, as
/// `(secs, nanos)` of the instant in UTC, or `None` where it fails.
pub uninterp spec fn rfc3339_reading(s: Seq<char>) -> Option<(i64, u32)>;

/// Formats an instant with `chrono`'s `DateTime::<Utc>::to_rfc3339`.
///
/// Claimed of the outside code: the text is `rfc3339_text` of the instant;
/// for an instant in years 0000 to 9999, `DateTime::parse_from_rfc3339` reads
/// the same instant back from it (the writer emits date, time, the
/// fraction of the second and `+00:00`, all of which the reader accepts).
#[verifier::external_body]
pub(crate) fn format_rfc3339(ts: Timestamp) -> (res: String)
    requires
        ts.valid(),
    ensures
        res@ == rfc3339_text(ts.secs, ts.nanos),
        ts.in_rfc3339_years() ==> rfc3339_reading(res@) == Some((ts.secs, ts.nanos)),
{
    DateTime::<Utc>::from_timestamp(ts.secs, ts.nanos).unwrap().to_rfc3339()
}

/// Reads an instant with `chrono`'s `DateTime::parse_from_rfc3339`.
///
/// Claimed of the outside code: the result is `rfc3339_reading` of the text,
/// and an instant it reads lies in `chrono`'s range (the reader takes a
/// four-digit year and an offset of less than a day).
#[verifier::external_body]
pub(crate) fn parse_rfc3339(s: &str) -> (res: Option<Timestamp>)
    ensures
        match res {
            Some(t) => rfc3339_reading(s@) == Some((t.secs, t.nanos)) && t.valid(),
            None => rfc3339_reading(s@) is None,
        },
{
    match DateTime::parse_from_rfc3339(s) {
        Ok(d) => Some(Timestamp { secs: d.timestamp(), nanos: d.timestamp_subsec_nanos() }),
        Err(_) => None,
    }
}

/// The system clock from std's `SystemTime::now`, as the time since the
/// Unix epoch (`duration_since(UNIX_EPOCH)`): whole seconds and the
/// nanoseconds within the second, or `None` where the clock reads before
/// the epoch.
///
/// Claimed of std: the nanosecond part is below one second (as
/// `Duration::subsec_nanos` documents). Which time comes back depends on
/// the clock and is not stated.
#[verifier::external_body]
pub(crate) fn system_clock() -> (res: Option<(u64, u32)>)
    ensures
        res matches Some((_, nanos)) ==> nanos < 1_000_000_000,
{
    match std::time::SystemTime::now().duration_since(std::time::UNIX_EPOCH) {
        Ok(d) => Some((d.as_secs(), d.subsec_nanos())),
        Err(_) => None,
    }
}

/// The instant that a clock reading gives: `reading` is the time since the
/// Unix epoch in whole seconds and nanoseconds (`None` for a clock before
/// the epoch). There is no instant past the last one `chrono` represents.
pub open spec fn clock_instant(reading: Option<(u64, u32)>) -> Option<Timestamp> {
    match reading {
        Some((secs, nanos)) => if secs <= MAX_SECS {
            Some(Timestamp { secs: secs as i64, nanos })
        } else {
            None
        },
        None => None,
    }
}

/// The instant that a clock reading gives.
pub fn timestamp_from_clock(reading: Option<(u64, u32)>) -> (res: Option<Timestamp>)
    ensures
        res == clock_instant(reading),
{
    match reading {
        Some((secs, nanos)) => {
            if secs <= MAX_SECS as u64 {
                Some(Timestamp { secs: secs as i64, nanos })
            } else {
                None
            }
        },
        None => None,
    }
}

/// The current instant, from the system clock: `clock_instant` of its
/// reading. Which reading comes back is not stated.
pub fn now() -> (res: Option<Timestamp>)
    ensures
        exists|reading: Option<(u64, u32)>|
            res == clock_instant(reading) && (reading matches Some((_, nanos)) ==> nanos
                < 1_000_000_000),
        res matches Some(t) ==> t.valid() && 0 <= t.secs && t.nanos < 1_000_000_000,
{
    let reading = system_clock();
    timestamp_from_clock(reading)
}

/// The text that `chrono` writes with the strftime pattern `pattern` for
/// the instant `(secs, nanos)` seen at `offset` seconds east of UTC.
pub uninterp spec fn offset_time_text(secs: i64, nanos: u32, offset: i32, pattern: Seq<char>) -> Seq<
    char,
>;

/// An instant in the machine's time zone, as `chrono` formats it with the
/// strftime pattern `pattern` (`DateTime::with_timezone(&Local)` then
/// `format`), together with the zone's offset from UTC at that instant.
///
/// Claimed of the outside code: the text is `offset_time_text` of the
/// instant at that offset (neither pattern writes the zone, so the text
/// depends on the local date and time alone), and the offset lies within a
/// day (`FixedOffset` holds no other). Which offset the machine's time zone
/// gives is not stated. The patterns are the two the application uses
/// (`chrono` panics on writing a pattern it cannot read).
#[verifier::external_body]
pub(crate) fn local_time_text(ts: Timestamp, pattern: &str) -> (res: (String, i32))
    requires
        ts.valid(),
        pattern@ == "%H:%M:%S"@ || pattern@ == "%Y-%m-%d %H:%M:%S"@,
    ensures
        res.0@ == offset_time_text(ts.secs, ts.nanos, res.1, pattern@),
        -86400 < res.1 < 86400,
{
    let local = DateTime::<Utc>::from_timestamp(ts.secs, ts.nanos).unwrap().with_timezone(&Local);
    let offset = local.offset().local_minus_utc();
    (local.format(pattern).to_string(), offset)
}

/// A clock reading gives the instant with the same seconds and nanoseconds,
/// unrounded, whenever it lies within `chrono`'s range; a reading before the
/// epoch or past that range gives none.
pub proof fn lemma_clock_instant_keeps_reading(reading: Option<(u64, u32)>)
    ensures
        clock_instant(reading) matches Some(t) ==> reading matches Some((secs, nanos)) && t.secs
            == secs && t.nanos == nanos,
        reading matches Some((secs, nanos)) ==> (secs <= MAX_SECS <==> clock_instant(reading)
            is Some),
        reading is None ==> clock_instant(reading) is None,
{
}
} // verus!
