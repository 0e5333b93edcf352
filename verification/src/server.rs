//! Server-side redemption: recovering the hidden bit.
//!
//! Given a token and the secret key, the redeemer derives the candidate
//! points for both bit values and compares each to `Q` by exact group
//! equality.  Exactly one must match; zero or two matches yield an
//! opaque error.

use vstd::prelude::*;
use crate::algebra::{
    group_order, lemma_distinct_shift, lemma_madd, lemma_madd_r, lemma_mmul_l, lemma_modl_bound,
    lemma_modl_small, modl,
};
use crate::group::{point_add, point_eq, point_scalar_mul, point_value, scalar_add, scalar_mul, scalar_value};
use crate::keys::{SecretKey, SecretKeyV};
use crate::token::{Token, TokenV};

verus! {

/// `Q` matches the branch for bit `false`: `Q = (x + t·z)·P`.
pub open spec fn matches_false(tok: TokenV, sk: SecretKeyV) -> bool {
    tok.q_big == modl((sk.x + tok.t * sk.z) * tok.p_big)
}

/// `Q` matches the branch for bit `true`: `Q = (x + t·z + y)·P`.
pub open spec fn matches_true(tok: TokenV, sk: SecretKeyV) -> bool {
    tok.q_big == modl((sk.x + tok.t * sk.z + sk.y) * tok.p_big)
}

/// Recovers the hidden bit: returns the bit whose branch point equals
/// `Q`, and an opaque error when no branch or both branches match.
///
/// For a well-formed key and a non-identity `P` the two branch points
/// always differ (`y·P` is not the identity in a prime-order group), so
/// a token whose `Q` matches a branch redeems to exactly that bit.
pub fn redeem_token(token: &Token, sk: &SecretKey) -> (r: Result<bool, ()>)
    ensures
        r is Ok <==> matches_true(token@, sk@) != matches_false(token@, sk@),
        r is Ok ==> r.unwrap() == matches_true(token@, sk@),
        sk@.wf() && token@.p_big != 0 && matches_false(token@, sk@) ==> r == Ok::<bool, ()>(
            false,
        ),
        sk@.wf() && token@.p_big != 0 && matches_true(token@, sk@) ==> r == Ok::<bool, ()>(true),
{
    let ghost x = sk@.x;
    let ghost y = sk@.y;
    let ghost z = sk@.z;
    let ghost tv = token@.t;
    let ghost pv = token@.p_big;
    let ghost qv = token@.q_big;

    let t_z = scalar_mul(&token.t, &sk.z);
    let false_scalar = scalar_add(&sk.x, &t_z);
    proof {
        lemma_madd_r(x, tv * z);
    }
    let false_point = point_scalar_mul(&false_scalar, &token.p_big);
    proof {
        lemma_mmul_l(x + tv * z, pv);
    }
    assert(point_value(false_point) == modl((x + tv * z) * pv));

    let y_point = point_scalar_mul(&sk.y, &token.p_big);
    let true_point = point_add(&false_point, &y_point);
    proof {
        lemma_madd((x + tv * z) * pv, y * pv);
        assert((x + tv * z) * pv + y * pv == (x + tv * z + y) * pv) by (nonlinear_arith);
    }
    assert(point_value(true_point) == modl((x + tv * z + y) * pv));

    let is_true = point_eq(&true_point, &token.q_big);
    let is_false = point_eq(&false_point, &token.q_big);

    proof {
        if sk@.wf() && pv != 0 {
            lemma_modl_small(y);
            assert(point_value(y_point) != 0);
            lemma_modl_bound((x + tv * z) * pv);
            lemma_modl_bound(y * pv);
            lemma_distinct_shift(modl((x + tv * z) * pv), modl(y * pv));
            lemma_madd((x + tv * z) * pv, y * pv);
            assert(point_value(true_point) != point_value(false_point));
        }
    }

    if is_true == is_false {
        return Err(());
    }

    Ok(is_true)
}

} // verus!
