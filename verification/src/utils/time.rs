//! Instants on the UTC time line, the clock, and the expiry rule.

use vstd::prelude::*;

verus! {

/// Seconds in one day.
pub const SECONDS_PER_DAY: i64 = 86_400;

/// The clock never reads this many seconds since the epoch, or more.
pub const CLOCK_LIMIT: i64 = 185_542_587_187_200;

/// An instant: whole seconds since the Unix epoch, and the nanoseconds past
/// that second. Instants are ordered by the seconds, then by the nanoseconds.
#[derive(Clone, Copy, Debug, PartialEq, Eq, Structural)]
pub struct Timestamp {
    pub secs: i64,
    pub nanos: u32,
}

impl Timestamp {
    /// `self` lies strictly before `other`.
    pub open spec fn is_before(self, other: Timestamp) -> bool {
        self.secs < other.secs || (self.secs == other.secs && self.nanos < other.nanos)
    }

    /// The instant `days` days after `self`, where its seconds fit in 64
    /// bits.
    pub open spec fn later_by_days(self, days: u32) -> Option<Timestamp> {
        if self.secs + SECONDS_PER_DAY * days <= i64::MAX {
            Some(Timestamp { secs: (self.secs + SECONDS_PER_DAY * days) as i64, nanos: self.nanos })
        } else {
            None
        }
    }

    /// What every reading of the clock satisfies: it is not before the epoch,
    /// it is below [`CLOCK_LIMIT`], and its nanoseconds are less than a
    /// second.
    pub open spec fn is_clock_reading(self) -> bool {
        0 <= self.secs < CLOCK_LIMIT && self.nanos < 1_000_000_000
    }

    /// Tells whether `self` lies strictly before `other`.
    pub fn before(&self, other: &Timestamp) -> (r: bool)
        ensures
            r == self.is_before(*other),
    {
        self.secs < other.secs || (self.secs == other.secs && self.nanos < other.nanos)
    }

    /// The instant `days` days after `self`, or `None` where its seconds do
    /// not fit in 64 bits.
    pub fn plus_days(&self, days: u32) -> (r: Option<Timestamp>)
        ensures
            r == self.later_by_days(days),
    {
        let span: i64 = SECONDS_PER_DAY * (days as i64);
        match self.secs.checked_add(span) {
            Some(secs) => Some(Timestamp { secs, nanos: self.nanos }),
            None => None,
        }
    }
}

/// A record with this expiry has expired at `now`: it has an expiry, and the
/// expiry lies strictly before `now`. A record without expiry never expires.
pub open spec fn expired_at(expires_at: Option<Timestamp>, now: Timestamp) -> bool {
    expires_at matches Some(limit) && limit.is_before(now)
}

/// Tells whether a record with this expiry has expired at `now`.
pub fn is_expired_at(expires_at: Option<Timestamp>, now: Timestamp) -> (r: bool)
    ensures
        r == expired_at(expires_at, now),
{
    match expires_at {
        Some(limit) => limit.before(&now),
        None => false,
    }
}

/// Reads the clock with `chrono::Utc::now` and hands the reading back as
/// seconds and nanoseconds (`DateTime::timestamp` and
/// `DateTime::timestamp_subsec_nanos`). The reading is taken from the time
/// elapsed since the epoch, so its seconds are not negative and its
/// nanoseconds are less than a second, and chrono holds no instant whose day
/// number does not fit in 32 bits. Nothing is proved here; chrono stops the
/// program where the system clock stands before the epoch.
#[verifier::external_body]
pub(crate) fn current_time() -> (now: Timestamp)
    ensures
        now.is_clock_reading(),
{
    let now = chrono::Utc::now();
    Timestamp { secs: now.timestamp(), nanos: now.timestamp_subsec_nanos() }
}

/// Tells whether a record with this expiry has expired by now.
///
/// Whatever the clock reads: a record without expiry has not expired, one
/// that expires before the epoch has, and one that expires at
/// [`CLOCK_LIMIT`] or later has not.
pub fn is_expired(expires_at: Option<Timestamp>) -> (r: bool)
    ensures
        exists|now: Timestamp| #[trigger] now.is_clock_reading() && r == expired_at(expires_at, now),
        expires_at is None ==> !r,
        expires_at matches Some(limit) && limit.secs < 0 ==> r,
        expires_at matches Some(limit) && limit.secs >= CLOCK_LIMIT ==> !r,
{
    let now = current_time();
    is_expired_at(expires_at, now)
}

/// The instant `days` days from now.
///
/// Whatever the clock reads, the result lies at least `days` days after the
/// epoch and less than [`CLOCK_LIMIT`] seconds beyond that.
pub fn add_days_to_now(days: u32) -> (r: Timestamp)
    ensures
        exists|now: Timestamp| #[trigger]
            now.is_clock_reading() && now.later_by_days(days) == Some(r),
        SECONDS_PER_DAY * days <= r.secs < SECONDS_PER_DAY * days + CLOCK_LIMIT,
        r.nanos < 1_000_000_000,
{
    let now = current_time();
    // A reading of the clock lies so far below the last instant that any
    // number of days fits.
    match now.plus_days(days) {
        Some(later) => later,
        None => now,
    }
}

} // verus!
