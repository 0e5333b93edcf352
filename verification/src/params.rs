//! The two group generators the protocol is built on.
//!
//! `G` is the standard Ristretto base point; `H` is derived from `G`'s
//! canonical encoding by hashing to the group, so that nobody knows a
//! discrete logarithm relating the two.  Pedersen commitments need both.

use vstd::prelude::*;
use crate::algebra::group_order;
use crate::group::{basepoint, hash_to_point, point_enc, point_from_hash, point_value, ristretto_bytes};
use curve25519_dalek_ng::ristretto::RistrettoPoint;

verus! {

/// The discrete logarithm of the generator `H`: the group element derived
/// by hashing the base point's canonical encoding.
pub open spec fn std_h() -> int {
    point_from_hash(point_enc(1))
}

pub struct PublicParams {
    /// The generator G
    pub g_big: RistrettoPoint,

    /// The generator H
    pub h_big: RistrettoPoint,
}

impl PublicParams {
    /// The parameters hold the standard generators.
    pub open spec fn wf(&self) -> bool {
        &&& point_value(self.g_big) == 1
        &&& point_value(self.h_big) == std_h()
        &&& 0 <= std_h() < group_order()
    }

    /// Builds the process-wide parameters: `G` is the standard base point
    /// and `H` is the hash of its encoding.
    pub fn create() -> (pp: PublicParams)
        ensures
            pp.wf(),
    {
        let g_big = basepoint();
        let g_bytes = ristretto_bytes(&g_big);
        let h_big = hash_to_point(&g_bytes);
        PublicParams { g_big, h_big }
    }
}

} // verus!
