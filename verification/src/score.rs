//! Scores as they travel through the reconciliation: an IEEE-754 binary32 bit
//! pattern, by which two scores are compared, and the decimal text that is copied
//! into reports.
//!
//! The library does no floating-point arithmetic. Whoever decodes a number hands
//! over its bit pattern and its rendering; comparison follows the IEEE-754 rules
//! for `==` on those patterns.

use vstd::prelude::*;

verus! {

/// Bit pattern of the sign bit of a binary32 number.
pub const SIGN_BIT: u32 = 0x8000_0000;

/// Magnitude pattern of positive infinity; every larger magnitude is a NaN.
pub const INFINITY_MAGNITUDE: u32 = 0x7f80_0000;

/// A score: the binary32 pattern of the number and its decimal rendering.
#[derive(Debug)]
pub struct Score {
    /// IEEE-754 binary32 bit pattern of the number.
    pub bits: u32,
    /// Decimal text of the number, as it is to appear in a report.
    pub text: String,
}

/// Mathematical model of a [`Score`].
pub struct SpecScore {
    pub bits: u32,
    pub text: Seq<char>,
}

impl DeepView for Score {
    type V = SpecScore;

    open spec fn deep_view(&self) -> SpecScore {
        SpecScore { bits: self.bits, text: self.text@ }
    }
}

/// The pattern with its sign bit cleared.
pub open spec fn magnitude(bits: u32) -> int {
    if bits >= SIGN_BIT {
        bits - SIGN_BIT
    } else {
        bits as int
    }
}

/// Whether the pattern encodes a NaN: all exponent bits set and a non-zero fraction.
pub open spec fn is_nan(bits: u32) -> bool {
    magnitude(bits) > INFINITY_MAGNITUDE
}

/// Whether the pattern encodes positive or negative zero.
pub open spec fn is_zero(bits: u32) -> bool {
    magnitude(bits) == 0
}

/// IEEE-754 equality of two binary32 patterns: a NaN equals nothing, not even
/// itself; the two zeros are equal; any other two numbers are equal exactly when
/// their patterns are.
pub open spec fn same_number(a: u32, b: u32) -> bool {
    &&& !is_nan(a)
    &&& !is_nan(b)
    &&& (a == b || (is_zero(a) && is_zero(b)))
}

impl SpecScore {
    /// Whether the two scores are different numbers (the negation of IEEE-754 `==`).
    pub open spec fn differs(self, other: SpecScore) -> bool {
        !same_number(self.bits, other.bits)
    }
}

/// The magnitude of a pattern, computed.
pub fn magnitude_of(bits: u32) -> (m: u32)
    ensures
        m == magnitude(bits),
{
    if bits >= SIGN_BIT {
        bits - SIGN_BIT
    } else {
        bits
    }
}

impl Score {
    /// A score from the pattern of the number and its rendering.
    pub fn new(bits: u32, text: String) -> (s: Score)
        ensures
            s.bits == bits,
            s.text == text,
            s.deep_view() == (SpecScore { bits, text: text@ }),
    {
        Score { bits, text }
    }

    /// Whether the score is not a number.
    pub fn is_nan(&self) -> (r: bool)
        ensures
            r == is_nan(self.bits),
    {
        magnitude_of(self.bits) > INFINITY_MAGNITUDE
    }

    /// Whether this score and `other` are different numbers. There is no
    /// tolerance: any numeric difference counts, and a NaN differs from everything.
    pub fn differs(&self, other: &Score) -> (r: bool)
        ensures
            r == self.deep_view().differs(other.deep_view()),
            r == !same_number(self.bits, other.bits),
    {
        let a: u32 = magnitude_of(self.bits);
        let b: u32 = magnitude_of(other.bits);
        if a > INFINITY_MAGNITUDE || b > INFINITY_MAGNITUDE {
            true
        } else if self.bits == other.bits {
            false
        } else {
            !(a == 0 && b == 0)
        }
    }

    /// The decimal text of the score.
    pub fn render(&self) -> (s: String)
        ensures
            s@ == self.deep_view().text,
    {
        self.text.clone()
    }
}

impl Clone for Score {
    fn clone(&self) -> (s: Score)
        ensures
            s == *self,
    {
        Score { bits: self.bits, text: self.text.clone() }
    }
}

/// There is no tolerance in the comparison: two scores that do not differ have
/// the same pattern, or are the two zeros. However close two numbers are, they
/// differ as soon as their patterns do.
pub proof fn lemma_no_tolerance(a: SpecScore, b: SpecScore)
    requires
        !a.differs(b),
    ensures
        a.bits == b.bits || (is_zero(a.bits) && is_zero(b.bits)),
        !is_nan(a.bits) && !is_nan(b.bits),
        !b.differs(a),
{
}

} // verus!
