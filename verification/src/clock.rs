//! Points in time, as whole seconds and nanoseconds since the Unix epoch.

use vstd::prelude::*;

verus! {

/// The largest distance from the epoch, in seconds, that a [`Timestamp`] may have.
pub const MAX_SECONDS: i64 = 0x3fff_ffff_ffff_ffff;

/// Nanoseconds in one second.
pub const NANOS_PER_SECOND: u32 = 1_000_000_000;

/// A point in time: `secs` whole seconds since 1970-01-01T00:00:00Z (negative
/// before it) and `nanos` nanoseconds into that second.
///
/// Every value satisfies `-MAX_SECONDS <= secs <= MAX_SECONDS` and
/// `nanos < NANOS_PER_SECOND`, so the distance between two timestamps always
/// fits a machine integer.
#[derive(Clone, Copy, Debug, PartialEq, Eq, Structural)]
pub struct Timestamp {
    secs: i64,
    nanos: u32,
}

/// Division that rounds toward zero, as machine division does.
pub open spec fn truncating_div(numerator: int, denominator: int) -> int
    recommends
        denominator > 0,
{
    if numerator >= 0 {
        numerator / denominator
    } else {
        -((-numerator) / denominator)
    }
}

impl Timestamp {
    /// The bounds of the type.
    #[verifier::type_invariant]
    spec fn in_range(self) -> bool {
        &&& -MAX_SECONDS <= self.secs <= MAX_SECONDS
        &&& self.nanos < NANOS_PER_SECOND
    }

    /// Whether the value is within the bounds of the type. Every timestamp
    /// that a program holds is.
    pub closed spec fn valid(self) -> bool {
        self.in_range()
    }

    /// Whole seconds since the epoch.
    pub closed spec fn seconds(self) -> int {
        self.secs as int
    }

    /// Nanoseconds into the second.
    pub closed spec fn subsec(self) -> int {
        self.nanos as int
    }

    /// Nanoseconds since the epoch.
    pub open spec fn total_nanos(self) -> int {
        self.seconds() * 1_000_000_000 + self.subsec()
    }

    /// Whether `secs` and `nanos` describe a timestamp.
    pub open spec fn representable(secs: i64, nanos: u32) -> bool {
        &&& -MAX_SECONDS <= secs <= MAX_SECONDS
        &&& nanos < NANOS_PER_SECOND
    }

    /// Whole seconds from `origin` to `self`, rounded toward zero; negative
    /// when `self` lies before `origin`.
    pub open spec fn elapsed_since(self, origin: Timestamp) -> int {
        truncating_div(self.total_nanos() - origin.total_nanos(), 1_000_000_000)
    }

    /// The timestamp `secs` seconds and `nanos` nanoseconds after the epoch,
    /// or `None` when the pair is not representable.
    pub fn new(secs: i64, nanos: u32) -> (t: Option<Timestamp>)
        ensures
            t is Some <==> Timestamp::representable(secs, nanos),
            t matches Some(ts) ==> ts.seconds() == secs && ts.subsec() == nanos && ts.valid(),
    {
        if -MAX_SECONDS <= secs && secs <= MAX_SECONDS && nanos < NANOS_PER_SECOND {
            Some(Timestamp { secs, nanos })
        } else {
            None
        }
    }

    /// Whole seconds since the epoch.
    pub fn secs(&self) -> (s: i64)
        ensures
            s == self.seconds(),
            -MAX_SECONDS <= s <= MAX_SECONDS,
            self.valid(),
    {
        proof {
            use_type_invariant(self);
        }
        self.secs
    }

    /// Nanoseconds into the second.
    pub fn subsec_nanos(&self) -> (n: u32)
        ensures
            n == self.subsec(),
            n < NANOS_PER_SECOND,
    {
        proof {
            use_type_invariant(self);
        }
        self.nanos
    }

    /// Whole seconds from `origin` to `self`, rounded toward zero.
    pub fn elapsed_seconds(&self, origin: &Timestamp) -> (elapsed: i64)
        ensures
            elapsed == self.elapsed_since(*origin),
    {
        proof {
            use_type_invariant(self);
            use_type_invariant(origin);
        }
        let whole: i64 = self.secs - origin.secs;
        if whole > 0 && self.nanos < origin.nanos {
            whole - 1
        } else if whole < 0 && self.nanos > origin.nanos {
            whole + 1
        } else {
            whole
        }
    }

    /// Nanoseconds from `origin` to `self`; negative when `self` lies before
    /// `origin`.
    pub open spec fn nanos_since(self, origin: Timestamp) -> int {
        self.total_nanos() - origin.total_nanos()
    }

    /// Nanoseconds from `origin` to `self`.
    pub fn elapsed_nanos(&self, origin: &Timestamp) -> (elapsed: i128)
        ensures
            elapsed == self.nanos_since(*origin),
    {
        proof {
            use_type_invariant(self);
            use_type_invariant(origin);
        }
        let seconds: i128 = self.secs as i128 - origin.secs as i128;
        seconds * 1_000_000_000 + (self.nanos as i128 - origin.nanos as i128)
    }

    /// Whether `self` is not later than `other`.
    pub open spec fn not_after(self, other: Timestamp) -> bool {
        self.total_nanos() <= other.total_nanos()
    }

    /// The current time of the system clock.
    ///
    /// Calls `chrono::Utc::now` and keeps the seconds and nanoseconds of what it
    /// returns. `Utc::now` builds its result from the clock's distance to the
    /// epoch, which is not negative and whose sub-second part is below one
    /// second, and the dates of `chrono` end some 262 000 years from the epoch,
    /// far inside the bounds of the type. Nothing else is claimed of the value.
    /// `Utc::now` does not return when the clock stands before the epoch.
    #[verifier::external_body]
    pub(crate) fn now() -> (t: Timestamp)
        ensures
            0 <= t.seconds(),
            t.valid(),
    {
        let now = chrono::Utc::now();
        Timestamp { secs: now.timestamp(), nanos: now.timestamp_subsec_nanos() }
    }
}

/// The seconds between two valid timestamps fit a machine integer, and so do
/// the nanoseconds between them, in 128 bits.
pub proof fn lemma_valid_distance(t: Timestamp, origin: Timestamp)
    requires
        t.valid(),
        origin.valid(),
    ensures
        -0x8000_0000_0000_0000 < t.elapsed_since(origin) < 0x8000_0000_0000_0000,
        -0x8000_0000_0000_0000_0000_0000_0000_0000 < t.nanos_since(origin)
            < 0x8000_0000_0000_0000_0000_0000_0000_0000,
{
}

} // verus!
