//! Single-precision numbers as bit patterns.
//!
//! A pattern is the `u32` that `to_bits` gives for a single-precision number:
//! one sign bit, eight exponent bits, twenty-three fraction bits. Negation is
//! the one arithmetic operation that never rounds, and it acts on the sign
//! bit alone, so it can be carried out, and reasoned about, on the pattern.

use vstd::prelude::*;

verus! {

/// The bit that holds the sign of a single-precision pattern.
pub const SIGN_BIT: u32 = 0x8000_0000;

/// The pattern of `-v`, given the pattern of `v`: the same bits with the sign
/// bit flipped.
pub open spec fn negated(bits: u32) -> u32 {
    bits ^ SIGN_BIT
}

/// Negates the number whose pattern is `bits`.
pub fn negate(bits: u32) -> (flipped: u32)
    ensures
        flipped == negated(bits),
{
    bits ^ SIGN_BIT
}

/// Negating twice gives back the pattern that was started from.
pub proof fn lemma_negated_is_involution(bits: u32)
    ensures
        negated(negated(bits)) == bits,
{
    assert((bits ^ 0x8000_0000u32) ^ 0x8000_0000u32 == bits) by (bit_vector);
}

/// Negation changes the sign bit and leaves the magnitude bits as they are.
pub proof fn lemma_negated_flips_sign_only(bits: u32)
    ensures
        negated(bits) & SIGN_BIT != bits & SIGN_BIT,
        negated(bits) & !SIGN_BIT == bits & !SIGN_BIT,
{
    assert((bits ^ 0x8000_0000u32) & 0x8000_0000u32 != bits & 0x8000_0000u32) by (bit_vector);
    assert((bits ^ 0x8000_0000u32) & !0x8000_0000u32 == bits & !0x8000_0000u32) by (bit_vector);
}

} // verus!
