//! Arithmetic modulo the order of the Ristretto group.
//!
//! Every scalar and every group element of the protocol is modelled by an
//! integer, and all protocol equations are stated modulo the prime group
//! order `l`.  This module defines that reduction and the congruence
//! toolkit the protocol proofs are built from.

use vstd::prelude::*;
use vstd::arithmetic::div_mod::{
    lemma_add_mod_noop, lemma_mod_bound, lemma_mod_twice, lemma_mul_mod_noop_general,
    lemma_small_mod, lemma_sub_mod_noop,
};

verus! {

/// The order of the Ristretto group: the prime
/// `2^252 + 27742317777372353535851937790883648493`.
pub open spec fn group_order() -> int {
    0x1000000000000000000000000000000014def9dea2f79cd65812631a5cf5d3edint
}

/// Reduction modulo the group order.
pub open spec fn modl(a: int) -> int {
    a % group_order()
}

/// Congruence modulo the group order.
pub open spec fn eqm(a: int, b: int) -> bool {
    modl(a) == modl(b)
}

pub proof fn lemma_modl_bound(a: int)
    ensures
        0 <= modl(a) < group_order(),
{
    lemma_mod_bound(a, group_order());
}

pub proof fn lemma_modl_small(a: int)
    requires
        0 <= a < group_order(),
    ensures
        modl(a) == a,
{
    lemma_small_mod(a as nat, group_order() as nat);
}

/// A reduced value is congruent to the value it reduces.
pub proof fn lemma_eqm_modl(a: int)
    ensures
        eqm(modl(a), a),
{
    lemma_mod_twice(a, group_order());
}

/// Congruence is preserved by addition.
pub proof fn lemma_eqm_add(a: int, b: int, c: int, d: int)
    requires
        eqm(a, b),
        eqm(c, d),
    ensures
        eqm(a + c, b + d),
{
    lemma_add_mod_noop(a, c, group_order());
    lemma_add_mod_noop(b, d, group_order());
}

/// Congruence is preserved by subtraction.
pub proof fn lemma_eqm_sub(a: int, b: int, c: int, d: int)
    requires
        eqm(a, b),
        eqm(c, d),
    ensures
        eqm(a - c, b - d),
{
    lemma_sub_mod_noop(a, c, group_order());
    lemma_sub_mod_noop(b, d, group_order());
}

/// Congruence is preserved by multiplication.
pub proof fn lemma_eqm_mul(a: int, b: int, c: int, d: int)
    requires
        eqm(a, b),
        eqm(c, d),
    ensures
        eqm(a * c, b * d),
{
    lemma_mul_mod_noop_general(a, c, group_order());
    lemma_mul_mod_noop_general(b, d, group_order());
}

/// Reducing the summands first does not change a reduced sum.
pub proof fn lemma_madd(a: int, b: int)
    ensures
        modl(modl(a) + modl(b)) == modl(a + b),
{
    lemma_add_mod_noop(a, b, group_order());
}

/// Reducing the operands first does not change a reduced difference.
pub proof fn lemma_msub(a: int, b: int)
    ensures
        modl(modl(a) - modl(b)) == modl(a - b),
{
    lemma_sub_mod_noop(a, b, group_order());
}

/// Reducing only the right summand first does not change a reduced sum.
pub proof fn lemma_madd_r(a: int, b: int)
    ensures
        modl(a + modl(b)) == modl(a + b),
{
    vstd::arithmetic::div_mod::lemma_add_mod_noop_right(a, b, group_order());
}

/// Adding a nonzero reduced value moves a reduced value.
pub proof fn lemma_distinct_shift(a: int, g: int)
    requires
        0 <= a < group_order(),
        0 < g < group_order(),
    ensures
        modl(a + g) != a,
{
    if a + g < group_order() {
        lemma_modl_small(a + g);
    } else {
        vstd::arithmetic::div_mod::lemma_mod_sub_multiples_vanish(a + g, group_order());
        lemma_modl_small(a + g - group_order());
    }
}

/// Reducing first does not change a reduced negation.
pub proof fn lemma_mneg(a: int)
    ensures
        modl(-modl(a)) == modl(-a),
{
    lemma_sub_mod_noop(0, a, group_order());
    lemma_small_mod(0, group_order() as nat);
}

/// Reducing the right factor first does not change a reduced product.
pub proof fn lemma_mmul_r(a: int, b: int)
    ensures
        modl(a * modl(b)) == modl(a * b),
{
    lemma_mul_mod_noop_general(a, b, group_order());
}

/// Reducing the left factor first does not change a reduced product.
pub proof fn lemma_mmul_l(a: int, b: int)
    ensures
        modl(modl(a) * b) == modl(a * b),
{
    lemma_mul_mod_noop_general(a, b, group_order());
}

} // verus!
