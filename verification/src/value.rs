//! The values that the machine computes with.

use vstd::prelude::*;

verus! {

/// The sign bit of a binary64 number.
pub const SIGN_BIT: u64 = 0x8000_0000_0000_0000;

/// A number of the language, held as the 64 bits of its IEEE 754 binary64
/// encoding. The library moves values around and changes their sign; all other
/// arithmetic on them belongs to the host.
#[derive(Clone, Copy, Debug, PartialEq, Eq, Structural)]
pub struct Value {
    pub bits: u64,
}

impl Value {
    /// The number with the opposite sign: IEEE 754 negation flips the sign
    /// bit and leaves every other bit alone, for zeros, infinities and NaNs
    /// as well.
    pub open spec fn negated(self) -> Value {
        Value { bits: self.bits ^ SIGN_BIT }
    }

    /// The value with the given encoding.
    pub fn from_bits(bits: u64) -> (value: Value)
        ensures
            value.bits == bits,
    {
        Value { bits }
    }

    /// The encoding of the value.
    pub fn to_bits(self) -> (bits: u64)
        ensures
            bits == self.bits,
    {
        self.bits
    }

    /// The arithmetic negation of the value.
    pub fn negate(self) -> (value: Value)
        ensures
            value == self.negated(),
    {
        Value { bits: self.bits ^ SIGN_BIT }
    }
}

/// Negating twice gives the value back.
pub proof fn lemma_negated_twice(value: Value)
    ensures
        value.negated().negated() == value,
{
    let bits = value.bits;
    assert((bits ^ 0x8000_0000_0000_0000u64) ^ 0x8000_0000_0000_0000u64 == bits) by (bit_vector);
}

} // verus!
