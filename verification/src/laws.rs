//! End-to-end correctness of the protocol.
//!
//! The pipeline is: ticket, blind signature with a hidden bit, verified
//! finalization into a token, redemption.  This module proves that an
//! honestly issued token always finalizes and always redeems to the bit
//! the signer embedded.

use vstd::prelude::*;
use crate::algebra::{
    eqm, group_order, lemma_eqm_add, lemma_eqm_modl, lemma_eqm_mul, lemma_eqm_sub, modl,
};
use crate::blind_sig::{bit_scalar, BlindSignature, BlindSignatureV};
use crate::keys::{PublicKey, PublicKeyV, SecretKey, SecretKeyV};
use crate::server::{matches_false, matches_true, redeem_token};
use crate::ticket::{ReceiptV, Ticket, TicketV};
use crate::token::{Token, TokenV};
use rand_core::OsRng;

verus! {

/// An honestly issued and honestly finalized token matches exactly the
/// branch of the bit the signer embedded: for every secret key, derived
/// public key, opened ticket, issued signature and unblinding scalar
/// `c`, the token's `Q` equals `(x + t·z + b·y)·P`.
pub proof fn lemma_issued_token_matches(
    sk: SecretKeyV,
    pk: PublicKeyV,
    t: TicketV,
    rc: ReceiptV,
    b: bool,
    bs: BlindSignatureV,
    tok: TokenV,
    c: int,
)
    requires
        sk.wf(),
        pk.derived_from(sk),
        rc.opens(t, pk),
        bs.issued_for(sk, t, b),
        tok.t == modl(rc.tc + bs.ts),
        0 < c < group_order(),
        tok.p_big == modl(c * bs.u_big),
        tok.q_big == modl(c * (bs.v_big - rc.r * bs.u_big)),
    ensures
        b ==> matches_true(tok, sk),
        !b ==> matches_false(tok, sk),
{
    let bv = bit_scalar(b);
    let x = sk.x;
    let y = sk.y;
    let z = sk.z;
    let zk = pk.z_big;
    let u = bs.u_big;
    let v = bs.v_big;
    let ts = bs.ts;
    let r = rc.r;
    let tc = rc.tc;
    let tt = t.t_big;
    let s = x + bv * y + ts * z + tt;

    // q = c·(v - r·u) is congruent to c·((s - r)·u)
    lemma_eqm_modl((x + bv * y + ts * z + tt) * u);
    lemma_eqm_sub(v, s * u, r * u, r * u);
    assert(s * u - r * u == (s - r) * u) by (nonlinear_arith);
    lemma_eqm_mul(c, c, v - r * u, (s - r) * u);
    lemma_eqm_modl(c * (v - r * u));

    // s - r is congruent to x + b·y + (ts + tc)·z
    lemma_eqm_modl(r + tc * zk);
    lemma_eqm_modl(z);
    lemma_eqm_mul(tc, tc, zk, z);
    lemma_eqm_add(r, r, tc * zk, tc * z);
    lemma_eqm_add(x + bv * y + ts * z, x + bv * y + ts * z, tt, r + tc * z);
    lemma_eqm_sub(s, x + bv * y + ts * z + (r + tc * z), r, r);
    assert(x + bv * y + ts * z + (r + tc * z) - r == x + bv * y + (ts + tc) * z)
        by (nonlinear_arith);

    // the target branch point (x + t·z + b·y)·p
    lemma_eqm_modl(c * u);
    lemma_eqm_modl(tc + ts);
    lemma_eqm_mul(tok.t, tc + ts, z, z);
    lemma_eqm_add(x, x, tok.t * z, (tc + ts) * z);
    lemma_eqm_add(x + tok.t * z, x + (tc + ts) * z, bv * y, bv * y);
    lemma_eqm_mul(x + tok.t * z + bv * y, x + (tc + ts) * z + bv * y, tok.p_big, c * u);

    // connect the two sides
    lemma_eqm_mul(s - r, x + bv * y + (ts + tc) * z, u, u);
    lemma_eqm_mul(c, c, (s - r) * u, (x + bv * y + (ts + tc) * z) * u);
    assert(c * ((x + bv * y + (ts + tc) * z) * u) == (x + (tc + ts) * z + bv * y) * (c * u))
        by (nonlinear_arith);

    assert(eqm(tok.q_big, (x + tok.t * z + bv * y) * tok.p_big));
    assert(tok.q_big == modl((x + tok.t * z + bv * y) * tok.p_big));
}

/// End-to-end correctness, checked by the verifier: for either bit, a
/// fresh key pair, ticket, blind signature and token always finalize,
/// and redemption returns exactly the embedded bit.
pub fn issue_and_redeem(rng: &mut OsRng, b: bool) -> (r: Result<bool, ()>)
    ensures
        r == Ok::<bool, ()>(b),
{
    let sk = SecretKey::create(rng);
    let pk = PublicKey::create(&sk);
    let (ticket, receipt) = Ticket::create(rng, &pk);
    let bs = BlindSignature::create(rng, &pk, &sk, &ticket, b);
    let token_res = Token::create(rng, &pk, &bs, &ticket, &receipt);
    let token = match token_res {
        Ok(tok) => tok,
        Err(()) => {
            return Err(());
        },
    };
    proof {
        let c = choose|c: int|
            0 < c < group_order() && token@.p_big == #[trigger] modl(c * bs@.u_big)
                && token@.q_big == modl(c * (bs@.v_big - receipt@.r * bs@.u_big));
        lemma_issued_token_matches(sk@, pk@, ticket@, receipt@, b, bs@, token@, c);
    }
    redeem_token(&token, &sk)
}

} // verus!
