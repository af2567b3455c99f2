//! Single-precision numbers, carried as bit patterns.
//!
//! Thresholds, levels and samples are measured outside this library. Here they are only
//! compared, and a comparison of two IEEE 754 numbers is a comparison of two integers.

use vstd::prelude::*;

verus! {

/// The magnitude of infinity. Anything above it is not a number.
pub const INFINITE_MAGNITUDE: u32 = 0x7f80_0000;

/// A single-precision number, by its IEEE 754 bit pattern.
#[derive(Debug, Clone, Copy, PartialEq, Eq, Structural)]
pub struct Single {
    pub bits: u32,
}

/// The magnitude bits of a pattern, as a number.
pub open spec fn magnitude_of(bits: u32) -> int {
    if bits >= 0x8000_0000 {
        bits - 0x8000_0000
    } else {
        bits as int
    }
}

impl Single {
    /// Where the number stands among all numbers, or nothing for what is not a number.
    ///
    /// Two numbers compare as their ranks do: within one sign the patterns ascend with the
    /// magnitude, and both zeros rank as zero.
    pub open spec fn rank(self) -> Option<int> {
        if magnitude_of(self.bits) > INFINITE_MAGNITUDE {
            None
        } else if self.bits >= 0x8000_0000 {
            Some(-magnitude_of(self.bits))
        } else {
            Some(magnitude_of(self.bits))
        }
    }

    /// `self < other`; false when either is not a number.
    pub open spec fn below_spec(self, other: Single) -> bool {
        match (self.rank(), other.rank()) {
            (Some(a), Some(b)) => a < b,
            _ => false,
        }
    }

    /// `self >= other`; false when either is not a number.
    pub open spec fn at_least_spec(self, other: Single) -> bool {
        match (self.rank(), other.rank()) {
            (Some(a), Some(b)) => a >= b,
            _ => false,
        }
    }

    /// The number with its sign removed.
    pub open spec fn magnitude_spec(self) -> Single {
        Single { bits: magnitude_of(self.bits) as u32 }
    }

    fn ordinal(self) -> (result: Option<i64>)
        ensures
            match result {
                Some(rank) => self.rank() == Some(rank as int),
                None => self.rank() is None,
            },
    {
        let negative = self.bits >= 0x8000_0000;
        let magnitude: u32 = if negative {
            self.bits - 0x8000_0000
        } else {
            self.bits
        };
        if magnitude > INFINITE_MAGNITUDE {
            None
        } else if negative {
            Some(0i64 - magnitude as i64)
        } else {
            Some(magnitude as i64)
        }
    }

    /// `self < other`; false when either is not a number.
    pub fn below(self, other: Single) -> (result: bool)
        ensures
            result == self.below_spec(other),
    {
        match (self.ordinal(), other.ordinal()) {
            (Some(a), Some(b)) => a < b,
            _ => false,
        }
    }

    /// `self >= other`; false when either is not a number.
    pub fn at_least(self, other: Single) -> (result: bool)
        ensures
            result == self.at_least_spec(other),
    {
        match (self.ordinal(), other.ordinal()) {
            (Some(a), Some(b)) => a >= b,
            _ => false,
        }
    }

    /// The number with its sign removed.
    pub fn magnitude(self) -> (result: Single)
        ensures
            result == self.magnitude_spec(),
    {
        if self.bits >= 0x8000_0000 {
            Single { bits: self.bits - 0x8000_0000 }
        } else {
            self
        }
    }
}

/// A number as a configuration states it: its value, and how it reads in a message.
#[derive(Debug, PartialEq, Eq)]
pub struct Threshold {
    pub value: Single,
    pub text: String,
}

impl Clone for Threshold {
    fn clone(&self) -> (result: Self)
        ensures
            result == *self,
    {
        Threshold { value: self.value, text: self.text.clone() }
    }
}

/// Comparing two numbers either way round never holds both ways, and for numbers proper it
/// always holds one way.
pub proof fn law_order_is_total(a: Single, b: Single)
    requires
        a.rank() is Some,
        b.rank() is Some,
    ensures
        a.below_spec(b) != a.at_least_spec(b),
{
}

/// Nothing compares with what is not a number.
pub proof fn law_not_a_number_compares_with_nothing(a: Single, b: Single)
    requires
        a.rank() is None,
    ensures
        !a.below_spec(b),
        !b.below_spec(a),
        !a.at_least_spec(b),
        !b.at_least_spec(a),
{
}

/// Two numbers compare as their bit patterns say: among numbers from zero up the larger
/// pattern is the larger number, below zero it is the smaller one, whatever is below zero is
/// below whatever is not, and the two zeros are the same.
pub proof fn law_patterns_order_as_numbers(a: Single, b: Single)
    ensures
        a.bits <= 0x7f80_0000 && b.bits <= 0x7f80_0000 ==> (a.below_spec(b) <==> a.bits < b.bits),
        0x8000_0000 <= a.bits <= 0xff80_0000 && 0x8000_0000 <= b.bits <= 0xff80_0000 ==> (
        a.below_spec(b) <==> a.bits > b.bits),
        0x8000_0000 < a.bits <= 0xff80_0000 && b.bits <= 0x7f80_0000 ==> a.below_spec(b)
            && !b.below_spec(a),
        a.bits == 0x8000_0000 && b.bits == 0 ==> !a.below_spec(b) && !b.below_spec(a),
        0x7f80_0000 < a.bits < 0x8000_0000 || a.bits > 0xff80_0000 ==> !a.below_spec(b)
            && !b.below_spec(a) && !a.at_least_spec(b) && !b.at_least_spec(a),
        a.at_least_spec(b) <==> a.rank() is Some && b.rank() is Some && !a.below_spec(b),
        a.magnitude_spec().bits < 0x8000_0000,
        a.magnitude_spec().bits == a.bits || a.magnitude_spec().bits + 0x8000_0000 == a.bits,
{
}

} // verus!
