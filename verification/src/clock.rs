//! Time, as values that callers supply.
//!
//! Nothing in this library reads a clock. Deadlines are measured on [`Moment`]s, and records
//! are stamped with [`Timestamp`]s, so every behaviour that depends on time can be stated
//! and tested to the nanosecond.

use vstd::prelude::*;

verus! {

/// Nanoseconds in a millisecond.
pub const NANOS_PER_MILLI: u64 = 1_000_000;

/// Nanoseconds in a second.
pub const NANOS_PER_SECOND: u32 = 1_000_000_000;

/// The first second a [`Timestamp`] may name: the start of the year -9999.
pub const FIRST_SECOND: i64 = -377_705_116_800;

/// The last second a [`Timestamp`] may name: the end of the year 9999.
pub const LAST_SECOND: i64 = 253_402_300_799;

/// A reading of a monotonic clock, in nanoseconds since some fixed origin.
#[derive(Debug, Clone, Copy, PartialEq, Eq, Structural)]
pub struct Moment {
    pub nanos: u64,
}

impl Moment {
    /// How long after `earlier` this is, in whole milliseconds; zero when it is not after.
    pub open spec fn millis_since_spec(self, earlier: Moment) -> int {
        if self.nanos <= earlier.nanos {
            0
        } else {
            (self.nanos - earlier.nanos) / NANOS_PER_MILLI as int
        }
    }

    /// How long after `earlier` this is, in whole milliseconds; zero when it is not after.
    pub fn millis_since(self, earlier: Moment) -> (result: u64)
        ensures
            result == self.millis_since_spec(earlier),
    {
        if self.nanos <= earlier.nanos {
            0
        } else {
            (self.nanos - earlier.nanos) / NANOS_PER_MILLI
        }
    }
}

/// An instant in civil time, as seconds of the Unix epoch and nanoseconds within the second.
#[derive(Debug, Clone, Copy, PartialEq, Eq, Structural)]
pub struct Timestamp {
    pub seconds: i64,
    pub nanos: u32,
}

impl Timestamp {
    /// Whether this names an instant of the years -9999 to 9999.
    pub open spec fn valid(self) -> bool {
        &&& FIRST_SECOND <= self.seconds <= LAST_SECOND
        &&& self.nanos < NANOS_PER_SECOND
    }

    /// Nanoseconds since the Unix epoch.
    pub open spec fn total(self) -> int {
        self.seconds * NANOS_PER_SECOND + self.nanos
    }

    /// The instant `ms` milliseconds earlier.
    pub open spec fn before_by(self, ms: int) -> Timestamp {
        let total = self.total() - ms * NANOS_PER_MILLI;
        Timestamp {
            seconds: (total / NANOS_PER_SECOND as int) as i64,
            nanos: (total % NANOS_PER_SECOND as int) as u32,
        }
    }

    /// Whether the instant `ms` milliseconds earlier is one a timestamp can name.
    pub open spec fn reaches_back(self, ms: int) -> bool {
        FIRST_SECOND * NANOS_PER_SECOND <= self.total() - ms * NANOS_PER_MILLI
    }

    /// Whether this names an instant of the years -9999 to 9999.
    pub fn is_valid(self) -> (result: bool)
        ensures
            result == self.valid(),
    {
        FIRST_SECOND <= self.seconds && self.seconds <= LAST_SECOND && self.nanos < NANOS_PER_SECOND
    }

    /// Whether the instant `ms` milliseconds earlier is one a timestamp can name.
    pub fn has_past(self, ms: u32) -> (result: bool)
        requires
            self.valid(),
        ensures
            result == self.reaches_back(ms as int),
    {
        proof {
            let seconds = self.seconds as int;
            assert(-1_000_000_000_000_000_000_000 <= seconds * NANOS_PER_SECOND
                <= 1_000_000_000_000_000_000_000) by (nonlinear_arith)
                requires
                    FIRST_SECOND <= seconds <= LAST_SECOND,
            ;
            assert(0 <= ms * NANOS_PER_MILLI <= 5_000_000_000_000_000) by (nonlinear_arith);
        }
        let total: i128 = self.seconds as i128 * NANOS_PER_SECOND as i128 + self.nanos as i128
            - ms as i128 * NANOS_PER_MILLI as i128;
        FIRST_SECOND as i128 * NANOS_PER_SECOND as i128 <= total
    }

    /// The instant `ms` milliseconds earlier.
    pub fn minus_millis(self, ms: u32) -> (result: Timestamp)
        requires
            self.valid(),
            self.reaches_back(ms as int),
        ensures
            result == self.before_by(ms as int),
            result.valid(),
            result.total() == self.total() - ms * NANOS_PER_MILLI,
    {
        let total: i128 = self.seconds as i128 * NANOS_PER_SECOND as i128 + self.nanos as i128
            - ms as i128 * NANOS_PER_MILLI as i128;
        // Offset by the first second, so that the division rounds towards the past.
        let origin: i128 = FIRST_SECOND as i128 * NANOS_PER_SECOND as i128;
        let offset: u128 = (total - origin) as u128;
        let seconds: u128 = offset / NANOS_PER_SECOND as u128;
        let nanos: u128 = offset % NANOS_PER_SECOND as u128;
        assert(total as int == self.total() - ms * NANOS_PER_MILLI);
        assert(offset == total - origin);
        assert(total as int / NANOS_PER_SECOND as int == seconds + FIRST_SECOND && total as int
            % NANOS_PER_SECOND as int == nanos) by {
            assert(offset == seconds * NANOS_PER_SECOND + nanos);
            assert(total == (seconds + FIRST_SECOND) * NANOS_PER_SECOND + nanos);
            vstd::arithmetic::div_mod::lemma_fundamental_div_mod_converse(
                total as int,
                NANOS_PER_SECOND as int,
                seconds + FIRST_SECOND,
                nanos as int,
            );
        }
        Timestamp { seconds: (seconds as i128 + FIRST_SECOND as i128) as i64, nanos: nanos as u32 }
    }
}

/// A length of time, in seconds and nanoseconds within the second.
#[derive(Debug, Clone, Copy, PartialEq, Eq, Structural)]
pub struct Span {
    pub seconds: u64,
    pub nanos: u32,
}

impl Span {
    /// That many seconds.
    pub fn from_secs(seconds: u64) -> (result: Span)
        ensures
            result == (Span { seconds, nanos: 0 }),
    {
        Span { seconds, nanos: 0 }
    }
}

/// The name of what the `Debug` formatting of `std::time::Duration` makes of a length of time.
pub uninterp spec fn span_text(seconds: u64, nanos: u32) -> Seq<char>;

/// A length of time the way diagnostics show it.
///
/// Trusted: the `Debug` impl of `std::time::Duration`, through `format!`, gives a result that
/// depends on the length of time alone. How it chooses a unit and rounds is left unsaid.
#[verifier::external_body]
pub(crate) fn show_span(span: Span) -> (result: String)
    requires
        span.nanos < NANOS_PER_SECOND,
    ensures
        result@ == span_text(span.seconds, span.nanos),
{
    format!("{:?}", std::time::Duration::new(span.seconds, span.nanos))
}

/// Milliseconds between two moments are whole ones, of a million nanoseconds each, rounded
/// down; and never less than none.
pub proof fn law_a_millisecond_is_a_million_nanoseconds(later: Moment, earlier: Moment)
    ensures
        earlier.nanos <= later.nanos ==> {
            let ms = later.millis_since_spec(earlier);
            ms * 1_000_000 <= later.nanos - earlier.nanos < (ms + 1) * 1_000_000
        },
        later.nanos <= earlier.nanos ==> later.millis_since_spec(earlier) == 0,
{
}

/// Going back by some milliseconds and again by more is going back by both.
pub proof fn law_going_back_adds_up(at: Timestamp, first: int, second: int)
    requires
        at.valid(),
        0 <= first,
        0 <= second,
        at.reaches_back(first + second),
    ensures
        at.before_by(0) == at,
        at.before_by(first).before_by(second) == at.before_by(first + second),
        at.before_by(first).nanos < 1_000_000_000,
        at.before_by(first).seconds * 1_000_000_000 + at.before_by(first).nanos == at.seconds
            * 1_000_000_000 + at.nanos - first * 1_000_000,
{
    let total = at.total();
    assert(FIRST_SECOND * NANOS_PER_SECOND <= total - (first + second) * NANOS_PER_MILLI);
    assert(-400_000_000_000 <= (total - first * 1_000_000) / 1_000_000_000 <= 400_000_000_000);
    assert(-400_000_000_000 <= (total - (first + second) * 1_000_000) / 1_000_000_000
        <= 400_000_000_000);
    assert(at.before_by(first).total() == total - first * 1_000_000);
}

} // verus!
