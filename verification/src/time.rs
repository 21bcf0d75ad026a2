//! Points in time and spans between them, as whole nanoseconds.
use vstd::prelude::*;

verus! {

/// Nanoseconds in one millisecond.
pub const NANOS_PER_MILLI: u128 = 1_000_000;

/// Nanoseconds in one second.
pub const NANOS_PER_SEC: u128 = 1_000_000_000;

/// The last instant from which every span of a `u64` of seconds can still be
/// added.
pub const LAST_ROOMY_NANOS: u128 = 0x7fff_ffff_ffff_ffff_ffff_ffff_ffff_ffff;

/// A span of time.
#[derive(Clone, Copy, Debug, PartialEq, Eq, PartialOrd, Ord, Hash, Structural)]
pub struct Duration {
    pub nanos: u128,
}

/// A point in time, counted from an origin that the caller chooses.
#[derive(Clone, Copy, Debug, PartialEq, Eq, PartialOrd, Ord, Hash, Structural)]
pub struct Instant {
    pub nanos: u128,
}

/// Nanoseconds in `ms` milliseconds.
pub open spec fn ms_nanos(ms: int) -> int {
    ms * 1_000_000
}

/// Nanoseconds from `since` to `now`, 0 where `since` is the later one.
pub open spec fn elapsed(now: Instant, since: Instant) -> int {
    if now.nanos >= since.nanos {
        now.nanos - since.nanos
    } else {
        0
    }
}

impl Duration {
    pub fn from_secs(secs: u64) -> (r: Duration)
        ensures
            r.nanos == secs * 1_000_000_000,
    {
        Duration { nanos: secs as u128 * NANOS_PER_SEC }
    }

    pub fn from_millis(ms: u64) -> (r: Duration)
        ensures
            r.nanos == ms_nanos(ms as int),
    {
        Duration { nanos: ms as u128 * NANOS_PER_MILLI }
    }
}

impl Instant {
    /// A deadline computed from this instant cannot overflow.
    pub open spec fn has_room(self) -> bool {
        self.nanos <= LAST_ROOMY_NANOS
    }

    /// This instant, `ms` milliseconds later.
    pub open spec fn after_ms(self, ms: int) -> Instant {
        Instant { nanos: (self.nanos + ms_nanos(ms)) as u128 }
    }

    pub fn from_nanos(nanos: u128) -> (r: Instant)
        ensures
            r.nanos == nanos,
    {
        Instant { nanos }
    }

    /// Time since `earlier`; zero where `earlier` is in fact later.
    pub fn saturating_duration_since(&self, earlier: Instant) -> (r: Duration)
        ensures
            r.nanos == elapsed(*self, earlier),
    {
        if self.nanos >= earlier.nanos {
            Duration { nanos: self.nanos - earlier.nanos }
        } else {
            Duration { nanos: 0 }
        }
    }

    /// The same as [`Instant::saturating_duration_since`].
    pub fn duration_since(&self, earlier: Instant) -> (r: Duration)
        ensures
            r.nanos == elapsed(*self, earlier),
    {
        self.saturating_duration_since(earlier)
    }

    /// Whether fewer than `ms` milliseconds lie between `since` and this instant.
    pub fn within_ms(&self, since: Instant, ms: u64) -> (r: bool)
        ensures
            r == (elapsed(*self, since) < ms_nanos(ms as int)),
    {
        self.saturating_duration_since(since).nanos < ms as u128 * NANOS_PER_MILLI
    }

    /// The instant `ms` milliseconds later.
    pub fn plus_ms(&self, ms: u64) -> (r: Instant)
        requires
            self.has_room(),
        ensures
            r == self.after_ms(ms as int),
            r.nanos == self.nanos + ms_nanos(ms as int),
    {
        Instant { nanos: self.nanos + ms as u128 * NANOS_PER_MILLI }
    }

    /// This instant, `ms` milliseconds later, but no later than the last one.
    pub open spec fn capped_after_ms(self, ms: int) -> Instant {
        if self.nanos + ms_nanos(ms) <= u128::MAX {
            self.after_ms(ms)
        } else {
            Instant { nanos: u128::MAX }
        }
    }

    pub fn plus_ms_capped(&self, ms: u64) -> (r: Instant)
        ensures
            r == self.capped_after_ms(ms as int),
    {
        let span: u128 = ms as u128 * NANOS_PER_MILLI;
        if self.nanos <= u128::MAX - span {
            Instant { nanos: self.nanos + span }
        } else {
            Instant { nanos: u128::MAX }
        }
    }

    /// Whether this instant comes strictly before `other`.
    pub fn is_before(&self, other: Instant) -> (r: bool)
        ensures
            r == (self.nanos < other.nanos),
    {
        self.nanos < other.nanos
    }

    /// The later of two instants.
    pub open spec fn later_of(self, other: Instant) -> Instant {
        if other.nanos >= self.nanos {
            other
        } else {
            self
        }
    }

    pub fn later(&self, other: Instant) -> (r: Instant)
        ensures
            r == self.later_of(other),
    {
        if other.nanos >= self.nanos {
            other
        } else {
            *self
        }
    }
}

impl std::ops::Add<Duration> for Instant {
    type Output = Instant;

    fn add(self, rhs: Duration) -> (r: Instant) {
        Instant { nanos: self.nanos + rhs.nanos }
    }
}

impl vstd::std_specs::ops::AddSpecImpl<Duration> for Instant {
    open spec fn obeys_add_spec() -> bool {
        true
    }

    open spec fn add_req(self, rhs: Duration) -> bool {
        self.nanos + rhs.nanos <= u128::MAX
    }

    open spec fn add_spec(self, rhs: Duration) -> Instant {
        Instant { nanos: (self.nanos + rhs.nanos) as u128 }
    }
}

impl std::ops::Sub<Duration> for Instant {
    type Output = Instant;

    fn sub(self, rhs: Duration) -> (r: Instant) {
        Instant { nanos: self.nanos - rhs.nanos }
    }
}

impl vstd::std_specs::ops::SubSpecImpl<Duration> for Instant {
    open spec fn obeys_sub_spec() -> bool {
        true
    }

    open spec fn sub_req(self, rhs: Duration) -> bool {
        rhs.nanos <= self.nanos
    }

    open spec fn sub_spec(self, rhs: Duration) -> Instant {
        Instant { nanos: (self.nanos - rhs.nanos) as u128 }
    }
}

impl std::ops::Add<Duration> for Duration {
    type Output = Duration;

    fn add(self, rhs: Duration) -> (r: Duration) {
        Duration { nanos: self.nanos + rhs.nanos }
    }
}

impl vstd::std_specs::ops::AddSpecImpl<Duration> for Duration {
    open spec fn obeys_add_spec() -> bool {
        true
    }

    open spec fn add_req(self, rhs: Duration) -> bool {
        self.nanos + rhs.nanos <= u128::MAX
    }

    open spec fn add_spec(self, rhs: Duration) -> Duration {
        Duration { nanos: (self.nanos + rhs.nanos) as u128 }
    }
}

/// Time goes by as the clock does: what has gone by since a moment is none
/// before it, and grows with the clock from then on; a moment some
/// milliseconds later comes exactly when they have gone by.
pub proof fn law_time_goes_by(now: Instant, since: Instant, ms: int)
    requires
        0 <= ms <= u64::MAX,
    ensures
        elapsed(now, since) >= 0,
        now.nanos <= since.nanos ==> elapsed(now, since) == 0,
        now.nanos >= since.nanos ==> since.nanos + elapsed(now, since) == now.nanos,
        ms_nanos(ms) == ms * 1000 * 1000,
        since.has_room() ==> since.after_ms(ms).nanos == since.nanos + ms * 1_000_000,
        since.has_room() && ms > 0 ==> (elapsed(now, since) < ms_nanos(ms) <==> now.nanos
            < since.after_ms(ms).nanos),
        since.capped_after_ms(ms).nanos <= since.nanos + ms * 1_000_000,
        since.nanos + ms * 1_000_000 <= u128::MAX ==> since.capped_after_ms(ms).nanos == since.nanos
            + ms * 1_000_000,
        since.nanos + ms * 1_000_000 > u128::MAX ==> since.capped_after_ms(ms).nanos == u128::MAX,
        now.later_of(since).nanos >= now.nanos,
        now.later_of(since).nanos >= since.nanos,
        now.later_of(since) == now || now.later_of(since) == since,
{
}

} // verus!
