//! Where chance enters: one trial of a Bernoulli distribution.
//!
//! A probability is the bit pattern of a double-precision number. The
//! patterns from zero up to that of one are those of the numbers in `[0, 1]`,
//! in their order; negative zero, which equals zero, is the one pattern with
//! the sign bit set that stands for a number in that range.

use vstd::prelude::*;
use crate::error::AugmentError;

verus! {

/// The double-precision pattern of one.
pub const PROBABILITY_ONE: u64 = 0x3FF0_0000_0000_0000;

/// The double-precision pattern of negative zero.
pub const NEGATIVE_ZERO: u64 = 0x8000_0000_0000_0000;

/// Whether `bits` is the pattern of a number in `[0, 1]`.
pub open spec fn is_probability(bits: u64) -> bool {
    bits <= PROBABILITY_ONE || bits == NEGATIVE_ZERO
}

/// Tells whether `p` can be the probability of a trial.
pub fn validate_probability(p: u64) -> (validated: Result<(), AugmentError>)
    ensures
        validated is Ok <==> is_probability(p),
        validated is Err ==> validated == Err::<(), AugmentError>(AugmentError::InvalidParameter),
{
    if p <= PROBABILITY_ONE || p == NEGATIVE_ZERO {
        Ok(())
    } else {
        Err(AugmentError::InvalidParameter)
    }
}

/// `rand::distributions::Bernoulli`, carried through as it is: nothing is
/// known of the probability inside.
#[verifier::external_type_specification]
#[verifier::external_body]
pub struct ExBernoulli(rand::distributions::Bernoulli);

/// `rand::rngs::StdRng`, carried through as it is: nothing is known of its
/// state.
#[verifier::external_type_specification]
#[verifier::external_body]
pub struct ExStdRng(rand::rngs::StdRng);

/// Calls `Distribution::sample` of `rand` on a Bernoulli distribution. The
/// outcome depends on the state of the generator, so nothing is claimed of
/// it: callers must be right for `true` and for `false`.
#[verifier::external_body]
pub(crate) fn draw_trial(
    distribution: &rand::distributions::Bernoulli,
    rng: &mut rand::rngs::StdRng,
) -> (trial: bool) {
    rand::distributions::Distribution::sample(distribution, rng)
}

} // verus!
