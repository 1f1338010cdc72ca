//! Time. Leases, backoff and retry budgets all depend on "now", so the moment
//! is always a value that somebody hands in.

use vstd::prelude::*;

verus! {

/// Nanoseconds in a second.
pub const NANOS_PER_SEC: u128 = 1_000_000_000;

/// The longest span that can be written down: `u64::MAX` seconds and
/// 999,999,999 nanoseconds.
pub const MAX_NANOS: u128 = 18_446_744_073_709_551_615_999_999_999;

/// A span of time, never negative, to the nanosecond. Its view is the number
/// of nanoseconds.
#[derive(Clone, Copy, Debug, PartialEq, Eq, PartialOrd, Ord, Structural)]
pub struct Duration {
    nanos: u128,
}

/// That many seconds, in nanoseconds.
pub open spec fn secs(n: int) -> int {
    n * 1_000_000_000
}

impl View for Duration {
    type V = int;

    closed spec fn view(&self) -> int {
        self.nanos as int
    }
}

impl Duration {
    #[verifier::type_invariant]
    spec fn in_range(self) -> bool {
        self.nanos <= MAX_NANOS
    }

    pub fn zero() -> (r: Duration)
        ensures
            r@ == 0,
    {
        Duration { nanos: 0 }
    }

    pub fn from_secs(n: u64) -> (r: Duration)
        ensures
            r@ == secs(n as int),
    {
        Duration { nanos: n as u128 * NANOS_PER_SEC }
    }

    pub fn from_millis(n: u64) -> (r: Duration)
        ensures
            r@ == n * 1_000_000,
    {
        Duration { nanos: n as u128 * 1_000_000 }
    }

    pub fn from_nanos(n: u64) -> (r: Duration)
        ensures
            r@ == n,
    {
        Duration { nanos: n as u128 }
    }

    /// The span of that many nanoseconds, if it is not too long to write down.
    pub fn checked_from_nanos(n: u128) -> (r: Option<Duration>)
        ensures
            match r {
                Some(d) => n <= MAX_NANOS && d@ == n,
                None => n > MAX_NANOS,
            },
    {
        if n <= MAX_NANOS {
            Some(Duration { nanos: n })
        } else {
            None
        }
    }

    /// Whole seconds; what is left over is dropped.
    pub fn as_secs(self) -> (r: u64)
        ensures
            r == self@ / 1_000_000_000,
    {
        proof {
            use_type_invariant(self);
        }
        (self.nanos / NANOS_PER_SEC) as u64
    }

    /// Whole milliseconds; what is left over is dropped.
    pub fn as_millis(self) -> (r: u128)
        ensures
            r == self@ / 1_000_000,
    {
        self.nanos / 1_000_000
    }

    pub fn as_nanos(self) -> (r: u128)
        ensures
            r == self@,
            r <= MAX_NANOS,
    {
        proof {
            use_type_invariant(self);
        }
        self.nanos
    }

    pub fn is_zero(self) -> (r: bool)
        ensures
            r == (self@ == 0),
            0 <= self@ <= MAX_NANOS,
    {
        proof {
            use_type_invariant(self);
        }
        self.nanos == 0
    }

    /// Whether this span is shorter than the other.
    pub fn shorter_than(self, other: Duration) -> (r: bool)
        ensures
            r == (self@ < other@),
            0 <= other@ <= MAX_NANOS,
    {
        proof {
            use_type_invariant(other);
        }
        self.nanos < other.nanos
    }

    /// The shorter of the two.
    pub fn at_most(self, cap: Duration) -> (r: Duration)
        ensures
            r@ == if self@ <= cap@ {
                self@
            } else {
                cap@
            },
            r == self || r == cap,
            0 <= cap@ <= MAX_NANOS,
    {
        proof {
            use_type_invariant(cap);
        }
        if self.nanos <= cap.nanos {
            self
        } else {
            cap
        }
    }

    /// `factor` times this span, or the longest span there is.
    pub fn saturating_mul(self, factor: u32) -> (r: Duration)
        ensures
            r@ == if self@ * factor <= MAX_NANOS {
                self@ * factor
            } else {
                MAX_NANOS as int
            },
    {
        proof {
            use_type_invariant(self);
        }
        let n: u128 = self.nanos;
        assert(n * factor <= 18_446_744_073_709_551_615_999_999_999 * 0xffff_ffff)
            by (nonlinear_arith)
            requires
                n <= 18_446_744_073_709_551_615_999_999_999,
                factor <= 0xffff_ffff,
        ;
        let product: u128 = n * (factor as u128);
        if product <= MAX_NANOS {
            Duration { nanos: product }
        } else {
            Duration { nanos: MAX_NANOS }
        }
    }

    /// Both spans one after the other, or the longest span there is.
    pub fn saturating_add(self, other: Duration) -> (r: Duration)
        ensures
            r@ == if self@ + other@ <= MAX_NANOS {
                self@ + other@
            } else {
                MAX_NANOS as int
            },
    {
        proof {
            use_type_invariant(self);
            use_type_invariant(other);
        }
        let total: u128 = self.nanos + other.nanos;
        if total <= MAX_NANOS {
            Duration { nanos: total }
        } else {
            Duration { nanos: MAX_NANOS }
        }
    }
}

/// Two spans of the same number of nanoseconds are the same span.
pub proof fn duration_is_its_nanos(a: Duration, b: Duration)
    requires
        a@ == b@,
    ensures
        a == b,
{
}

/// A moment: nanoseconds since the start of 1970, in UTC.
#[derive(Clone, Copy, Debug, PartialEq, Eq, PartialOrd, Ord, Hash, Structural)]
pub struct Timestamp {
    pub unix_nanos: i128,
}

/// The first moment of the calendar: the start of the year -262143.
pub const FIRST_MOMENT: i128 = -8_334_601_228_800_000_000_000;

/// The last moment of the calendar: the last nanosecond of the year 262142.
pub const LAST_MOMENT: i128 = 8_210_266_876_799_999_999_999;

impl Timestamp {
    /// The calendar reaches this moment.
    pub open spec fn in_calendar(self) -> bool {
        FIRST_MOMENT <= self.unix_nanos <= LAST_MOMENT
    }

    /// How long ago `earlier` was. `None` when it lies in the future.
    pub fn since(self, earlier: Timestamp) -> (r: Option<Duration>)
        requires
            self.in_calendar(),
            earlier.in_calendar(),
        ensures
            match r {
                Some(d) => earlier.unix_nanos <= self.unix_nanos && d@ == self.unix_nanos
                    - earlier.unix_nanos,
                None => self.unix_nanos < earlier.unix_nanos,
            },
    {
        if self.unix_nanos < earlier.unix_nanos {
            None
        } else {
            Duration::checked_from_nanos((self.unix_nanos - earlier.unix_nanos) as u128)
        }
    }

    /// The moment that much later.
    pub fn plus(self, span: Duration) -> (r: Timestamp)
        requires
            self.in_calendar(),
            self.unix_nanos + span@ <= LAST_MOMENT,
        ensures
            r.unix_nanos == self.unix_nanos + span@,
            r.in_calendar(),
    {
        let nanos: u128 = span.as_nanos();
        Timestamp { unix_nanos: self.unix_nanos + nanos as i128 }
    }
}

/// A clock that only moves when it is told to.
#[derive(Clone, Copy, Debug, PartialEq, Eq, Structural)]
pub struct TestClock {
    now: Timestamp,
}

impl TestClock {
    /// The moment that the clock shows.
    pub closed spec fn shows(self) -> Timestamp {
        self.now
    }

    pub fn new(now: Timestamp) -> (r: TestClock)
        ensures
            r.shows() == now,
    {
        TestClock { now }
    }

    pub fn now(&self) -> (r: Timestamp)
        ensures
            r == self.shows(),
    {
        self.now
    }

    pub fn advance(&mut self, by: Duration)
        requires
            old(self).shows().in_calendar(),
            old(self).shows().unix_nanos + by@ <= LAST_MOMENT,
        ensures
            final(self).shows().unix_nanos == old(self).shows().unix_nanos + by@,
            final(self).shows().in_calendar(),
    {
        self.now = self.now.plus(by);
    }
}

impl Default for TestClock {
    /// The start of 2026, in UTC.
    fn default() -> (r: TestClock)
        ensures
            r.shows().unix_nanos == secs(1_767_225_600),
            r.shows().in_calendar(),
    {
        TestClock::new(Timestamp { unix_nanos: 1_767_225_600_000_000_000 })
    }
}

} // verus!
