//! Instants in UTC, and the shift of an instant by whole seconds.
use vstd::prelude::*;

verus! {

/// The first representable second, relative to 1970-01-01 00:00:00 UTC.
pub const MIN_SECS: i64 = -8_334_601_228_800;

/// The last representable second, relative to 1970-01-01 00:00:00 UTC.
pub const MAX_SECS: i64 = 8_210_266_876_799;

/// Nanoseconds in a second.
pub const NANOS_PER_SEC: u32 = 1_000_000_000;

/// An instant in UTC: whole seconds since 1970-01-01 00:00:00, and nanoseconds since
/// that second. During a leap second the seconds stay at the preceding second and the
/// nanoseconds run on past one second.
#[derive(Clone, Copy, Debug, PartialEq, Eq, Structural)]
pub struct Timestamp {
    pub secs: i64,
    pub nanos: u32,
}

/// Whether a second is representable.
pub open spec fn secs_in_range(secs: int) -> bool {
    MIN_SECS <= secs <= MAX_SECS
}

impl Timestamp {
    /// The instants that exist: a representable second, and nanoseconds below one
    /// second, or below two in the last second of a minute.
    pub open spec fn valid(self) -> bool {
        &&& secs_in_range(self.secs as int)
        &&& self.nanos < 2 * NANOS_PER_SEC
        &&& self.nanos >= NANOS_PER_SEC ==> (self.secs as int) % 60 == 59
    }

    /// Whether the instant lies within a leap second.
    pub open spec fn in_leap_second(self) -> bool {
        self.nanos >= NANOS_PER_SEC
    }

    /// The second reached by moving `delay` seconds. A move back out of a leap second
    /// counts that leap second as one of the seconds crossed.
    pub open spec fn shifted_secs(self, delay: int) -> int {
        if self.in_leap_second() && delay < 0 {
            self.secs + 1 + delay
        } else {
            self.secs + delay
        }
    }

    /// The nanoseconds after moving `delay` seconds: unchanged, but for the move out of
    /// a leap second, which keeps what is left over after a full second.
    pub open spec fn shifted_nanos(self, delay: int) -> int {
        if self.in_leap_second() && delay != 0 {
            self.nanos - NANOS_PER_SEC
        } else {
            self.nanos as int
        }
    }

    /// Chronological order: by second, then by nanosecond.
    pub open spec fn not_after(self, other: Timestamp) -> bool {
        self.secs < other.secs || (self.secs == other.secs && self.nanos <= other.nanos)
    }

    /// Whether `self` is at or before `other`.
    pub fn at_or_before(&self, other: &Timestamp) -> (r: bool)
        ensures
            r == self.not_after(*other),
            r <==> self.secs < other.secs || self.secs == other.secs && self.nanos <= other.nanos,
    {
        self.secs < other.secs || (self.secs == other.secs && self.nanos <= other.nanos)
    }

    /// Whether the instant is one that exists.
    pub fn is_valid(&self) -> (r: bool)
        ensures
            r == self.valid(),
            r ==> MIN_SECS <= self.secs <= MAX_SECS && self.nanos < 2_000_000_000,
            MIN_SECS <= self.secs <= MAX_SECS && self.nanos < 1_000_000_000 ==> r,
    {
        MIN_SECS <= self.secs && self.secs <= MAX_SECS && self.nanos < 2_000_000_000 && (self.nanos
            < NANOS_PER_SEC || last_second_of_minute(self.secs))
    }
}

/// Whether a second is the last one of its minute.
fn last_second_of_minute(secs: i64) -> (r: bool)
    requires
        secs_in_range(secs as int),
    ensures
        r == ((secs as int) % 60 == 59),
{
    let from_first: i64 = secs - MIN_SECS;
    from_first % 60 == 59
}

/// `chrono::DateTime<Utc> + chrono::Duration::seconds(delay)`, between
/// `chrono::DateTime::from_timestamp` and `timestamp` / `timestamp_subsec_nanos`, which
/// round-trip.
///
/// Claimed of it: the sum of an existing instant and a whole number of seconds is the
/// instant that many seconds away, with the leap-second rule of `shifted_secs` and
/// `shifted_nanos`. `chrono` panics where the sum is not representable.
#[verifier::external_body]
pub(crate) fn add_seconds(t: Timestamp, delay: i64) -> (r: Timestamp)
    requires
        t.valid(),
        secs_in_range(t.shifted_secs(delay as int)),
    ensures
        r.secs == t.shifted_secs(delay as int),
        r.nanos == t.shifted_nanos(delay as int),
{
    let from = chrono::DateTime::from_timestamp(t.secs, t.nanos).unwrap();
    let to = from + chrono::Duration::seconds(delay);
    Timestamp { secs: to.timestamp(), nanos: to.timestamp_subsec_nanos() }
}

/// Chronological order is by second and then by nanosecond. It is total, and two instants
/// that are each not after the other are the same.
pub proof fn law_order(a: Timestamp, b: Timestamp)
    ensures
        a.secs < b.secs ==> a.not_after(b) && !b.not_after(a),
        a.secs == b.secs && a.nanos < b.nanos ==> a.not_after(b) && !b.not_after(a),
        a.not_after(b) || b.not_after(a),
        a.not_after(b) && b.not_after(a) <==> a == b,
{
}

/// An instant exists if its second is representable and its nanoseconds are below a second.
/// In the last second of a minute, and in no other, they may be below two.
pub proof fn law_instants(t: Timestamp)
    ensures
        t.valid() ==> MIN_SECS <= t.secs <= MAX_SECS,
        MIN_SECS <= t.secs <= MAX_SECS ==> (t.valid() <==> t.nanos < (if (t.secs as int) % 60
            == 59 {
            2_000_000_000int
        } else {
            1_000_000_000int
        })),
{
}

/// Outside leap seconds a shift adds its seconds and keeps the nanoseconds, so that shifts
/// add up. Out of a leap second, a shift forward of one second leads to the same place in
/// the next second, and a shift back of one second to that place in the second itself.
pub proof fn law_shift(t: Timestamp, a: int, b: int)
    ensures
        t.nanos < 1_000_000_000 ==> {
            &&& t.shifted_secs(a) == t.secs + a
            &&& t.shifted_nanos(a) == t.nanos
            &&& t.shifted_secs(a + b) - t.shifted_secs(a) == b
        },
        t.nanos >= 1_000_000_000 ==> {
            &&& a > 0 ==> t.shifted_secs(a) == t.secs + a
            &&& a < 0 ==> t.shifted_secs(a) == t.secs + a + 1
            &&& a != 0 ==> t.shifted_nanos(a) == t.nanos - 1_000_000_000
            &&& t.shifted_secs(0) == t.secs
            &&& t.shifted_nanos(0) == t.nanos
        },
{
}

} // verus!
