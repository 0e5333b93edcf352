//! Proof verification from public values only.
//!
//! The verifier recomputes, from the proof's response scalars alone, the
//! five commitments the prover hashed, recomputes the Fiat–Shamir
//! challenge over the same transcript, and accepts exactly when it equals
//! the sum of the two sub-challenges.  `proof_checks` is that acceptance
//! condition as a mathematical predicate; `verify_proof` decides it.

use vstd::prelude::*;
use crate::algebra::{lemma_madd, lemma_madd_r, lemma_mmul_r, lemma_modl_small, lemma_msub, modl};
use crate::blind_sig::BlindSignature;
use crate::group::{point_add, point_scalar_mul, point_sub, scalar_add, scalar_eq};
use crate::params::PublicParams;
use crate::ticket::Ticket;
use crate::bytes::{le_int, push_chunk, scalar_le32};
use crate::group::{
    point_enc, point_value, ristretto_bytes, scalar_bytes, scalar_from_wide_bytes,
    scalar_value, sha512, sha512_of,
};
use crate::keys::{PublicKey, PublicKeyV};
use crate::params::std_h;
use crate::prover_server::ProofV;
use crate::ticket::TicketV;
use curve25519_dalek_ng::ristretto::RistrettoPoint;
use curve25519_dalek_ng::scalar::Scalar;

verus! {

/// The hashed transcript: the public key's three elements, the
/// signature parts `U`, `V`, `ts`, the bit commitment `C` and the five
/// recomputed commitments, each in its 32-byte encoding.
pub open spec fn transcript_bytes(
    c_big_x: int,
    c_big_y: int,
    z_big: int,
    u: int,
    v: int,
    ts: int,
    c: int,
    c0: int,
    c1: int,
    cd: int,
    crho: int,
    cw: int,
) -> Seq<u8> {
    point_enc(c_big_x) + point_enc(c_big_y) + point_enc(z_big) + point_enc(u) + point_enc(v)
        + scalar_le32(ts) + point_enc(c) + point_enc(c0) + point_enc(c1) + point_enc(cd)
        + point_enc(crho) + point_enc(cw)
}

/// The Fiat–Shamir challenge: the SHA-512 digest of the transcript,
/// read little-endian and reduced modulo the group order.
pub open spec fn challenge(t: Seq<u8>) -> int {
    modl(le_int(sha512_of(t)))
}

/// The acceptance condition of the proof system, over the models of the
/// public key, the ticket, the signature parts and the proof.
pub open spec fn proof_checks(
    pk: PublicKeyV,
    t: TicketV,
    u: int,
    v: int,
    ts: int,
    pi: ProofV,
) -> bool {
    let h = std_h();
    let e = modl(pi.e_zero + pi.e_one);
    let c0 = modl(pi.a_zero * h - pi.e_zero * pi.c_big);
    let c1 = modl(pi.a_one * h - pi.e_one * (pi.c_big - pk.c_big_y));
    let cd = modl(pi.a_d * u + e);
    let crho = modl(
        pi.a_d * v + pi.a_rho * h + e * (pk.c_big_x + pi.c_big + ts * pk.z_big + t.t_big),
    );
    let cw = modl(pi.a_d * v + pi.a_w + e * t.t_big);
    challenge(
        transcript_bytes(
            pk.c_big_x,
            pk.c_big_y,
            pk.z_big,
            u,
            v,
            ts,
            pi.c_big,
            c0,
            c1,
            cd,
            crho,
            cw,
        ),
    ) == e
}

/// Hashes the shared transcript shape of prover and verifier into a
/// reduced challenge scalar.
pub(crate) fn fiat_shamir(
    pk: &PublicKey,
    u_big: &RistrettoPoint,
    v_big: &RistrettoPoint,
    ts: &Scalar,
    c_big: &RistrettoPoint,
    c_big_zero: &RistrettoPoint,
    c_big_one: &RistrettoPoint,
    c_big_d: &RistrettoPoint,
    c_big_rho: &RistrettoPoint,
    c_big_w: &RistrettoPoint,
) -> (e: Scalar)
    ensures
        scalar_value(e) == challenge(
            transcript_bytes(
                pk@.c_big_x,
                pk@.c_big_y,
                pk@.z_big,
                point_value(*u_big),
                point_value(*v_big),
                scalar_value(*ts),
                point_value(*c_big),
                point_value(*c_big_zero),
                point_value(*c_big_one),
                point_value(*c_big_d),
                point_value(*c_big_rho),
                point_value(*c_big_w),
            ),
        ),
        0 <= scalar_value(e) < crate::algebra::group_order(),
{
    let mut data: Vec<u8> = Vec::new();
    let b0 = ristretto_bytes(&pk.c_big_x);
    push_chunk(&mut data, &b0);
    let b1 = ristretto_bytes(&pk.c_big_y);
    push_chunk(&mut data, &b1);
    let b2 = ristretto_bytes(&pk.z_big);
    push_chunk(&mut data, &b2);
    let b3 = ristretto_bytes(u_big);
    push_chunk(&mut data, &b3);
    let b4 = ristretto_bytes(v_big);
    push_chunk(&mut data, &b4);
    let b5 = scalar_bytes(ts);
    push_chunk(&mut data, &b5);
    let b6 = ristretto_bytes(c_big);
    push_chunk(&mut data, &b6);
    let b7 = ristretto_bytes(c_big_zero);
    push_chunk(&mut data, &b7);
    let b8 = ristretto_bytes(c_big_one);
    push_chunk(&mut data, &b8);
    let b9 = ristretto_bytes(c_big_d);
    push_chunk(&mut data, &b9);
    let b10 = ristretto_bytes(c_big_rho);
    push_chunk(&mut data, &b10);
    let b11 = ristretto_bytes(c_big_w);
    push_chunk(&mut data, &b11);

    let digest = sha512(&data);
    scalar_from_wide_bytes(&digest)
}

/// Recomputes the proof's commitments and the Fiat–Shamir challenge
/// from public values only and accepts exactly when they are consistent:
/// `Ok(true)` if and only if `proof_checks` holds, an opaque error
/// otherwise.  Touches no secret material.
pub fn verify_proof(pk: &PublicKey, ticket: &Ticket, bs: &BlindSignature) -> (r: Result<
    bool,
    (),
>)
    ensures
        r is Ok <==> proof_checks(pk@, ticket@, bs@.u_big, bs@.v_big, bs@.ts, bs@.pi),
        r is Ok ==> r.unwrap() == true,
{
    let ghost h = std_h();
    let ghost pi = bs@.pi;
    let ghost cx = pk@.c_big_x;
    let ghost cy = pk@.c_big_y;
    let ghost zk = pk@.z_big;
    let ghost tt = ticket@.t_big;
    let ghost uu = bs@.u_big;
    let ghost vv = bs@.v_big;
    let ghost tsv = bs@.ts;

    let pp = PublicParams::create();

    // C_0 <-- a_0 * H - e_0 * C
    let a0_h = point_scalar_mul(&bs.pi.a_zero, &pp.h_big);
    let e0_c = point_scalar_mul(&bs.pi.e_zero, &bs.pi.c_big);
    let c_big_zero = point_sub(&a0_h, &e0_c);
    proof {
        lemma_msub(pi.a_zero * h, pi.e_zero * pi.c_big);
    }
    assert(point_value(c_big_zero) == modl(pi.a_zero * h - pi.e_zero * pi.c_big));

    // C_1 <-- a_1 * H - e_1 * (C - C_y)
    let a1_h = point_scalar_mul(&bs.pi.a_one, &pp.h_big);
    let c_minus_c_y = point_sub(&bs.pi.c_big, &pk.c_big_y);
    let e1_part = point_scalar_mul(&bs.pi.e_one, &c_minus_c_y);
    let c_big_one = point_sub(&a1_h, &e1_part);
    proof {
        lemma_mmul_r(pi.e_one, pi.c_big - cy);
        lemma_msub(pi.a_one * h, pi.e_one * (pi.c_big - cy));
    }
    assert(point_value(c_big_one) == modl(pi.a_one * h - pi.e_one * (pi.c_big - cy)));

    // e <-- e_0 + e_1
    let e = scalar_add(&bs.pi.e_zero, &bs.pi.e_one);
    let ghost ev = modl(pi.e_zero + pi.e_one);

    // C_d = a_d * U + e * G
    let ad_u = point_scalar_mul(&bs.pi.a_d, &bs.u_big);
    let e_g = point_scalar_mul(&e, &pp.g_big);
    let c_big_d = point_add(&ad_u, &e_g);
    proof {
        lemma_modl_small(ev);
        lemma_madd_r(ev, pi.a_d * uu);
    }
    assert(point_value(c_big_d) == modl(pi.a_d * uu + ev));

    // C_rho = a_d * V + a_rho * H + e * (C_x + C + ts * Z + T)
    let cx_c = point_add(&pk.c_big_x, &bs.pi.c_big);
    let ts_z = point_scalar_mul(&bs.ts, &pk.z_big);
    let aux1 = point_add(&cx_c, &ts_z);
    let aux = point_add(&aux1, &ticket.t_big);
    proof {
        lemma_madd(cx + pi.c_big, tsv * zk);
        lemma_madd_r(tt, cx + pi.c_big + tsv * zk);
    }
    assert(point_value(aux) == modl(cx + pi.c_big + tsv * zk + tt));
    let a_d_v_big = point_scalar_mul(&bs.pi.a_d, &bs.v_big);
    let arho_h = point_scalar_mul(&bs.pi.a_rho, &pp.h_big);
    let sum1 = point_add(&a_d_v_big, &arho_h);
    let e_aux = point_scalar_mul(&e, &aux);
    let c_big_rho = point_add(&sum1, &e_aux);
    proof {
        lemma_madd(pi.a_d * vv, pi.a_rho * h);
        lemma_mmul_r(ev, cx + pi.c_big + tsv * zk + tt);
        lemma_madd(pi.a_d * vv + pi.a_rho * h, ev * (cx + pi.c_big + tsv * zk + tt));
    }
    assert(point_value(c_big_rho) == modl(
        pi.a_d * vv + pi.a_rho * h + ev * (cx + pi.c_big + tsv * zk + tt),
    ));

    // C_w = a_d * V + a_w * G + e * T
    let aw_g = point_scalar_mul(&bs.pi.a_w, &pp.g_big);
    let sum2 = point_add(&a_d_v_big, &aw_g);
    let e_t = point_scalar_mul(&e, &ticket.t_big);
    let c_big_w = point_add(&sum2, &e_t);
    proof {
        lemma_madd(pi.a_d * vv, pi.a_w);
        lemma_mmul_r(ev, tt);
        lemma_madd(pi.a_d * vv + pi.a_w, ev * tt);
    }
    assert(point_value(c_big_w) == modl(pi.a_d * vv + pi.a_w + ev * tt));

    // e_verify <-- Hash(G, H, C_x, C_y, C, C_0, C_1, C_d, C_rho, C_w)
    let e_verify = fiat_shamir(
        pk,
        &bs.u_big,
        &bs.v_big,
        &bs.ts,
        &bs.pi.c_big,
        &c_big_zero,
        &c_big_one,
        &c_big_d,
        &c_big_rho,
        &c_big_w,
    );

    if !scalar_eq(&e_verify, &e) {
        return Err(());
    }

    Ok(true)
}

} // verus!
