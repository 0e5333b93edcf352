//! Scalar helpers shared across the protocol.

use vstd::prelude::*;
use crate::algebra::{group_order, lemma_modl_small, modl};
use crate::bytes::{lemma_le_int_all_zero, lemma_le_int_single};
use crate::group::{random_scalar, scalar_eq, scalar_from_bytes, scalar_value};
use curve25519_dalek_ng::scalar::Scalar;
use rand_core::OsRng;

pub use crate::group::ristretto_bytes;
pub use crate::group::scalar_bytes;

verus! {

/// The scalar `0`.
pub fn zero_scalar() -> (s: Scalar)
    ensures
        scalar_value(s) == 0,
{
    let bytes = [0u8; 32];
    proof {
        lemma_le_int_all_zero(bytes@);
        lemma_modl_small(0);
    }
    scalar_from_bytes(&bytes)
}

/// The scalar `1`.
pub fn one_scalar() -> (s: Scalar)
    ensures
        scalar_value(s) == 1,
{
    let bytes = [
        1u8, 0, 0, 0, 0, 0, 0, 0, 0, 0, 0, 0, 0, 0, 0, 0,
        0, 0, 0, 0, 0, 0, 0, 0, 0, 0, 0, 0, 0, 0, 0, 0,
    ];
    proof {
        lemma_le_int_single(bytes@);
        lemma_modl_small(1);
    }
    scalar_from_bytes(&bytes)
}

/// Draws a uniformly random nonzero scalar by bounded rejection sampling.
///
/// A freshly drawn scalar is zero with probability `1 / group_order()`,
/// so the retry bound is never reached in practice; if it ever were, the
/// draw falls back to the scalar `1` rather than return a zero scalar
/// that would collapse the protocol's algebra.
pub fn non_zero_scalar(rng: &mut OsRng) -> (s: Scalar)
    ensures
        0 < scalar_value(s) < group_order(),
{
    let zero = zero_scalar();
    let mut tries: usize = 0;
    while tries < 128
        invariant
            scalar_value(zero) == 0,
        decreases 128 - tries,
    {
        let candidate = random_scalar(rng);
        if !scalar_eq(&candidate, &zero) {
            return candidate;
        }
        tries = tries + 1;
    }
    one_scalar()
}

} // verus!
