//! The server's non-interactive proof of correct blind-signature
//! construction.
//!
//! The proof is a disjunctive Sigma protocol made non-interactive by the
//! Fiat–Shamir transform: the branch for the real hidden bit is proved
//! honestly, the other branch is simulated from a freely chosen
//! challenge/response pair, and the two sub-challenges are forced to sum
//! to the hashed challenge of the full transcript.

use vstd::prelude::*;
use crate::algebra::{
    eqm, group_order, lemma_eqm_add, lemma_eqm_modl, lemma_eqm_mul, lemma_eqm_sub, lemma_madd,
    lemma_mmul_l, lemma_mmul_r, lemma_mneg, lemma_modl_small, lemma_msub, modl,
};
use crate::group::{
    point_add, point_scalar_mul, point_sub, point_value, scalar_add, scalar_eq, scalar_invert,
    scalar_mul, scalar_neg, scalar_sub, scalar_value,
};
use crate::keys::{PublicKey, SecretKey};
use crate::params::{std_h, PublicParams};
use crate::ticket::Ticket;
use crate::utils::{non_zero_scalar, one_scalar, zero_scalar};
use crate::verifier_client::{fiat_shamir, proof_checks};
use crate::group::random_scalar;
use curve25519_dalek_ng::ristretto::RistrettoPoint;
use curve25519_dalek_ng::scalar::Scalar;
use rand_core::OsRng;

verus! {

/// The mathematical content of a proof: the discrete logarithm of the
/// bit commitment `C` and the seven response scalars.
pub ghost struct ProofV {
    pub c_big: int,
    pub e_zero: int,
    pub e_one: int,
    pub a_zero: int,
    pub a_one: int,
    pub a_d: int,
    pub a_rho: int,
    pub a_w: int,
}

impl ProofV {
    /// Every field is reduced modulo the group order.
    pub open spec fn wf(self) -> bool {
        &&& 0 <= self.c_big < group_order()
        &&& 0 <= self.e_zero < group_order()
        &&& 0 <= self.e_one < group_order()
        &&& 0 <= self.a_zero < group_order()
        &&& 0 <= self.a_one < group_order()
        &&& 0 <= self.a_d < group_order()
        &&& 0 <= self.a_rho < group_order()
        &&& 0 <= self.a_w < group_order()
    }
}

#[derive(Debug, PartialEq)]
pub struct Proof {
    pub c_big: RistrettoPoint,
    pub e_zero: Scalar,
    pub e_one: Scalar,
    pub a_zero: Scalar,
    pub a_one: Scalar,
    pub a_d: Scalar,
    pub a_rho: Scalar,
    pub a_w: Scalar,
}

impl View for Proof {
    type V = ProofV;

    open spec fn view(&self) -> ProofV {
        ProofV {
            c_big: point_value(self.c_big),
            e_zero: scalar_value(self.e_zero),
            e_one: scalar_value(self.e_one),
            a_zero: scalar_value(self.a_zero),
            a_one: scalar_value(self.a_one),
            a_d: scalar_value(self.a_d),
            a_rho: scalar_value(self.a_rho),
            a_w: scalar_value(self.a_w),
        }
    }
}

impl Proof {
    /// Builds the disjunctive proof for the hidden bit `scalar_b` over
    /// the freshly computed signature parts `U = d·G`,
    /// `V = (x + b·y + ts·z + T)·d`.
    ///
    /// Both branches are computed with the same formula shape and only
    /// the output order depends on the bit, so no work is skipped for
    /// either bit value.  The proof it returns satisfies the verifier's
    /// acceptance condition `proof_checks`.
    pub fn create(
        rng: &mut OsRng,
        sk: &SecretKey,
        pk: &PublicKey,
        t: &Ticket,
        bs_u_big: &RistrettoPoint,
        bs_v_big: &RistrettoPoint,
        bs_ts: &Scalar,
        scalar_b: &Scalar,
        d: &Scalar,
    ) -> (pi: Proof)
        requires
            sk@.wf(),
            pk@.derived_from(sk@),
            t@.wf(),
            scalar_value(*scalar_b) == 0 || scalar_value(*scalar_b) == 1,
            0 < scalar_value(*d) < group_order(),
            0 <= scalar_value(*bs_ts) < group_order(),
            point_value(*bs_u_big) == scalar_value(*d),
            point_value(*bs_v_big) == modl(
                (sk@.x + scalar_value(*scalar_b) * sk@.y + scalar_value(*bs_ts) * sk@.z
                    + t@.t_big) * scalar_value(*d),
            ),
        ensures
            pi@.wf(),
            proof_checks(
                pk@,
                t@,
                point_value(*bs_u_big),
                point_value(*bs_v_big),
                scalar_value(*bs_ts),
                pi@,
            ),
    {
        let ghost h = std_h();
        let ghost bb = scalar_value(*scalar_b);
        let ghost dd = scalar_value(*d);
        let ghost tsv = scalar_value(*bs_ts);
        let ghost cx = pk@.c_big_x;
        let ghost cy = pk@.c_big_y;
        let ghost zk = pk@.z_big;
        let ghost tt = t@.t_big;
        let ghost uu = point_value(*bs_u_big);
        let ghost vv = point_value(*bs_v_big);
        let ghost ss = sk@.x + bb * sk@.y + tsv * sk@.z + tt;

        let pp = PublicParams::create();

        // e_one_minus_b, a_one_minus_b <-- ZZ_p
        let sim_e = random_scalar(rng);
        let sim_a = random_scalar(rng);

        // r_mu, r_d, r_rho, r_w <-- ZZ_p
        let r_mu = random_scalar(rng);
        let r_d = random_scalar(rng);
        let r_rho = random_scalar(rng);
        let r_w = random_scalar(rng);

        // mu <-- ZZ_p*
        let mu = non_zero_scalar(rng);
        let ghost sev = scalar_value(sim_e);
        let ghost sav = scalar_value(sim_a);
        let ghost rmu = scalar_value(r_mu);
        let ghost rdv = scalar_value(r_d);
        let ghost rrho = scalar_value(r_rho);
        let ghost rwv = scalar_value(r_w);
        let ghost muv = scalar_value(mu);

        // C <-- b * C_y + mu * H
        let b_cy = point_scalar_mul(scalar_b, &pk.c_big_y);
        let mu_h = point_scalar_mul(&mu, &pp.h_big);
        let c_big = point_add(&b_cy, &mu_h);
        proof {
            lemma_madd(bb * cy, muv * h);
        }
        assert(point_value(c_big) == modl(bb * cy + muv * h));

        // C_b <-- r_mu * H
        let c_big_b = point_scalar_mul(&r_mu, &pp.h_big);

        // C_one_minus_b <-- a_one_minus_b * H - e_one_minus_b * (C - (1 - b) * C_y)
        let one = one_scalar();
        let one_minus_b = scalar_sub(&one, scalar_b);
        let omb_cy = point_scalar_mul(&one_minus_b, &pk.c_big_y);
        proof {
            lemma_mmul_l(1 - bb, cy);
        }
        let pt = point_sub(&c_big, &omb_cy);
        let ghost pt_raw = bb * cy + muv * h - (1 - bb) * cy;
        proof {
            lemma_msub(bb * cy + muv * h, (1 - bb) * cy);
        }
        assert(point_value(pt) == modl(pt_raw));
        let sa_h = point_scalar_mul(&sim_a, &pp.h_big);
        let se_pt = point_scalar_mul(&sim_e, &pt);
        let c_big_one_minus_b = point_sub(&sa_h, &se_pt);
        proof {
            lemma_mmul_r(sev, pt_raw);
            lemma_msub(sav * h, sev * pt_raw);
        }
        assert(point_value(c_big_one_minus_b) == modl(sav * h - sev * pt_raw));

        // C_d <-- r_d * U
        let c_big_d = point_scalar_mul(&r_d, bs_u_big);
        assert(point_value(c_big_d) == modl(rdv * dd));

        // C_rho <-- r_d * V + r_rho * H
        let r_d_v_big = point_scalar_mul(&r_d, bs_v_big);
        let rrho_h = point_scalar_mul(&r_rho, &pp.h_big);
        let c_big_rho = point_add(&r_d_v_big, &rrho_h);
        proof {
            lemma_madd(rdv * vv, rrho * h);
        }
        assert(point_value(c_big_rho) == modl(rdv * vv + rrho * h));

        // C_w <-- r_d * V + r_w * G
        let rw_g = point_scalar_mul(&r_w, &pp.g_big);
        let c_big_w = point_add(&r_d_v_big, &rw_g);
        proof {
            lemma_madd(rdv * vv, rwv);
        }
        assert(point_value(c_big_w) == modl(rdv * vv + rwv));

        // order the branch commitments by bit value
        let zero = zero_scalar();
        let b_is_zero = scalar_eq(scalar_b, &zero);
        let (c_big_zero, c_big_one) = if b_is_zero {
            (c_big_b, c_big_one_minus_b)
        } else {
            (c_big_one_minus_b, c_big_b)
        };

        // e <-- Hash(transcript) reduced mod the group order
        let e = fiat_shamir(
            pk,
            bs_u_big,
            bs_v_big,
            bs_ts,
            &c_big,
            &c_big_zero,
            &c_big_one,
            &c_big_d,
            &c_big_rho,
            &c_big_w,
        );
        let ghost ev = scalar_value(e);

        // e_b <-- e - e_one_minus_b
        let e_b = scalar_sub(&e, &sim_e);

        // a_b <-- r_mu + e_b * mu
        let eb_mu = scalar_mul(&e_b, &mu);
        let a_b = scalar_add(&r_mu, &eb_mu);
        proof {
            lemma_mmul_l(ev - sev, muv);
            lemma_modl_small(rmu);
            lemma_madd(rmu, (ev - sev) * muv);
        }
        assert(scalar_value(a_b) == modl(rmu + (ev - sev) * muv));

        // a_d <-- r_d + e * d' = r_d + e * -1/d
        proof {
            lemma_modl_small(dd);
        }
        let d_inv = scalar_invert(d);
        let ghost iv = scalar_value(d_inv);
        let e_d_inv = scalar_mul(&e, &d_inv);
        let a_d = scalar_sub(&r_d, &e_d_inv);
        proof {
            lemma_modl_small(rdv);
            lemma_msub(rdv, ev * iv);
        }
        assert(scalar_value(a_d) == modl(rdv - ev * iv));

        // rho <-- -(r_x + b * r_y + mu)
        let b_ry = scalar_mul(scalar_b, &sk.r_y);
        let rx_bry = scalar_add(&sk.r_x, &b_ry);
        let rx_bry_mu = scalar_add(&rx_bry, &mu);
        let rho = scalar_neg(&rx_bry_mu);
        proof {
            lemma_modl_small(sk@.r_x);
            lemma_madd(sk@.r_x, bb * sk@.r_y);
            lemma_modl_small(muv);
            lemma_madd(sk@.r_x + bb * sk@.r_y, muv);
            lemma_mneg(sk@.r_x + bb * sk@.r_y + muv);
        }
        assert(scalar_value(rho) == modl(-(sk@.r_x + bb * sk@.r_y + muv)));

        // a_rho <-- r_rho + e * rho
        let e_rho = scalar_mul(&e, &rho);
        let a_rho = scalar_add(&r_rho, &e_rho);
        proof {
            lemma_mmul_r(ev, -(sk@.r_x + bb * sk@.r_y + muv));
            lemma_modl_small(rrho);
            lemma_madd(rrho, ev * -(sk@.r_x + bb * sk@.r_y + muv));
        }
        assert(scalar_value(a_rho) == modl(rrho + ev * -(sk@.r_x + bb * sk@.r_y + muv)));

        // w <-- x + b * y + ts * z
        let b_y = scalar_mul(scalar_b, &sk.y);
        let x_by = scalar_add(&sk.x, &b_y);
        let ts_z = scalar_mul(bs_ts, &sk.z);
        let w = scalar_add(&x_by, &ts_z);
        proof {
            lemma_modl_small(sk@.x);
            lemma_madd(sk@.x, bb * sk@.y);
            lemma_madd(sk@.x + bb * sk@.y, tsv * sk@.z);
        }
        assert(scalar_value(w) == modl(sk@.x + bb * sk@.y + tsv * sk@.z));

        // a_w <-- r_w + e * w
        let e_w = scalar_mul(&e, &w);
        let a_w = scalar_add(&r_w, &e_w);
        proof {
            lemma_mmul_r(ev, sk@.x + bb * sk@.y + tsv * sk@.z);
            lemma_modl_small(rwv);
            lemma_madd(rwv, ev * (sk@.x + bb * sk@.y + tsv * sk@.z));
        }
        assert(scalar_value(a_w) == modl(rwv + ev * (sk@.x + bb * sk@.y + tsv * sk@.z)));

        // order the challenges and responses by bit value
        let (e_zero, e_one, a_zero, a_one) = if b_is_zero {
            (e_b, sim_e, a_b, sim_a)
        } else {
            (sim_e, e_b, sim_a, a_b)
        };

        let pi = Proof { c_big, e_zero, e_one, a_zero, a_one, a_d, a_rho, a_w };

        proof {
            let cv = modl(bb * cy + muv * h);
            let c0v = point_value(c_big_zero);
            let c1v = point_value(c_big_one);
            lemma_e_split(ev, sev);
            assert(modl(pi@.e_zero + pi@.e_one) == ev);

            // the verifier's recomputed commitments equal the hashed ones
            lemma_cd(ev, rdv, iv, dd);
            assert(modl(pi@.a_d * uu + ev) == point_value(c_big_d));
            lemma_crho(
                h, sk@.x, sk@.y, sk@.z, sk@.r_x, sk@.r_y, tt, bb, muv, ev, rdv, rrho, iv, dd,
                tsv, cx, cy, zk, cv, vv, ss,
            );
            assert(modl(pi@.a_d * vv + pi@.a_rho * h + ev * (cx + cv + tsv * zk + tt))
                == point_value(c_big_rho));
            lemma_cw(ev, rdv, iv, dd, rwv, ss, tt, vv);
            assert(modl(pi@.a_d * vv + pi@.a_w + ev * tt) == point_value(c_big_w));

            if bb == 0 {
                assert(bb * cy == 0) by (nonlinear_arith)
                    requires
                        bb == 0,
                ;
                assert((1 - bb) * cy == cy) by (nonlinear_arith)
                    requires
                        bb == 0,
                ;
                lemma_eqm_modl(muv * h);
                lemma_honest_branch(h, rmu, muv, ev - sev, cv);
                assert(modl(pi@.a_zero * h - pi@.e_zero * pi@.c_big) == c0v);
                lemma_eqm_modl(bb * cy + muv * h);
                lemma_eqm_sub(cv, muv * h, cy, cy);
                lemma_sim_branch(h, sav, sev, cv - cy, pt_raw);
                assert(modl(pi@.a_one * h - pi@.e_one * (pi@.c_big - cy)) == c1v);
            } else {
                assert(bb * cy == cy) by (nonlinear_arith)
                    requires
                        bb == 1,
                ;
                assert((1 - bb) * cy == 0) by (nonlinear_arith)
                    requires
                        bb == 1,
                ;
                lemma_eqm_modl(bb * cy + muv * h);
                lemma_sim_branch(h, sav, sev, cv, pt_raw);
                assert(modl(pi@.a_zero * h - pi@.e_zero * pi@.c_big) == c0v);
                lemma_eqm_sub(cv, cy + muv * h, cy, cy);
                lemma_honest_branch(h, rmu, muv, ev - sev, cv - cy);
                assert(modl(pi@.a_one * h - pi@.e_one * (pi@.c_big - cy)) == c1v);
            }
            assert(proof_checks(pk@, t@, uu, vv, tsv, pi@));
        }

        pi
    }
}

/// The two sub-challenges sum back to the hashed challenge.
proof fn lemma_e_split(e: int, se: int)
    requires
        0 <= e < group_order(),
        0 <= se < group_order(),
    ensures
        modl(modl(e - se) + se) == e,
        modl(se + modl(e - se)) == e,
{
    lemma_modl_small(se);
    lemma_madd(e - se, se);
    lemma_madd(se, e - se);
    lemma_modl_small(e);
}

/// The honestly proved branch verifies: from the response
/// `a = r_mu + q·mu` and the challenge `q` the verifier recovers the
/// commitment `r_mu·H` behind any `cc` congruent to `mu·H`.
proof fn lemma_honest_branch(h: int, rmu: int, mu: int, q: int, cc: int)
    requires
        eqm(cc, mu * h),
    ensures
        modl(modl(rmu + q * mu) * h - modl(q) * cc) == modl(rmu * h),
{
    lemma_eqm_modl(rmu + q * mu);
    lemma_eqm_modl(q);
    lemma_eqm_mul(modl(rmu + q * mu), rmu + q * mu, h, h);
    lemma_eqm_mul(modl(q), q, cc, mu * h);
    lemma_eqm_sub(modl(rmu + q * mu) * h, (rmu + q * mu) * h, modl(q) * cc, q * (mu * h));
    assert((rmu + q * mu) * h - q * (mu * h) == rmu * h) by (nonlinear_arith);
}

/// The simulated branch verifies by construction: the verifier's
/// formula applied to the simulator's challenge and response.
proof fn lemma_sim_branch(h: int, sa: int, se: int, cc: int, pt: int)
    requires
        eqm(cc, pt),
    ensures
        modl(sa * h - se * cc) == modl(sa * h - se * pt),
{
    lemma_eqm_mul(se, se, cc, pt);
    lemma_eqm_sub(sa * h, sa * h, se * cc, se * pt);
}

/// Multiplying by `iv·v` is, modulo the group order, multiplying by `s`
/// when `v = s·d` and `iv` inverts `d`.
proof fn lemma_e_iv_v(e: int, iv: int, dd: int, s: int, v: int)
    requires
        v == modl(s * dd),
        modl(iv * dd) == 1,
    ensures
        eqm(e * (iv * v), e * s),
{
    lemma_eqm_modl(s * dd);
    lemma_eqm_mul(iv, iv, v, s * dd);
    assert(iv * (s * dd) == s * (iv * dd)) by (nonlinear_arith);
    lemma_modl_small(1);
    lemma_eqm_mul(s, s, iv * dd, 1);
    lemma_eqm_mul(e, e, iv * v, s);
}

/// The blinding commitment verifies: `a_d·U + e` recovers `r_d·U` when
/// `a_d = r_d - e/d` and `U = d·G`.
proof fn lemma_cd(e: int, rd: int, iv: int, dd: int)
    requires
        modl(iv * dd) == 1,
    ensures
        modl(modl(rd - e * iv) * dd + e) == modl(rd * dd),
{
    lemma_eqm_modl(rd - e * iv);
    lemma_eqm_mul(modl(rd - e * iv), rd - e * iv, dd, dd);
    lemma_eqm_add(modl(rd - e * iv) * dd, (rd - e * iv) * dd, e, e);
    assert((rd - e * iv) * dd + e == rd * dd - e * (iv * dd) + e) by (nonlinear_arith);
    lemma_modl_small(1);
    lemma_eqm_mul(e, e, iv * dd, 1);
    lemma_eqm_sub(rd * dd, rd * dd, e * (iv * dd), e);
    lemma_eqm_add(rd * dd - e * (iv * dd), rd * dd - e, e, e);
}

/// The commitment-opening check verifies: the response `a_rho` built
/// from `rho = -(r_x + b·r_y + mu)` makes the verifier's combination
/// recover `r_d·V + r_rho·H`.
proof fn lemma_crho(
    h: int,
    x: int,
    y: int,
    z: int,
    rx: int,
    ry: int,
    tt: int,
    b: int,
    mu: int,
    e: int,
    rd: int,
    rrho: int,
    iv: int,
    dd: int,
    ts: int,
    cx: int,
    cy: int,
    zk: int,
    cv: int,
    v: int,
    s: int,
)
    requires
        cx == modl(x + rx * h),
        cy == modl(y + ry * h),
        zk == modl(z),
        cv == modl(b * cy + mu * h),
        v == modl(s * dd),
        s == x + b * y + ts * z + tt,
        modl(iv * dd) == 1,
    ensures
        modl(
            modl(rd - e * iv) * v + modl(rrho + e * (-(rx + b * ry + mu))) * h + e * (cx + cv
                + ts * zk + tt),
        ) == modl(rd * v + rrho * h),
{
    let rhor = -(rx + b * ry + mu);
    let ad = modl(rd - e * iv);
    let ar = modl(rrho + e * rhor);
    let inner_raw = (x + rx * h) + (b * (y + ry * h) + mu * h) + ts * z + tt;

    lemma_eqm_modl(rd - e * iv);
    lemma_eqm_mul(ad, rd - e * iv, v, v);
    lemma_eqm_modl(rrho + e * rhor);
    lemma_eqm_mul(ar, rrho + e * rhor, h, h);
    lemma_eqm_modl(x + rx * h);
    lemma_eqm_modl(z);
    lemma_eqm_mul(ts, ts, zk, z);
    lemma_eqm_modl(b * cy + mu * h);
    lemma_eqm_modl(y + ry * h);
    lemma_eqm_mul(b, b, cy, y + ry * h);
    lemma_eqm_add(b * cy, b * (y + ry * h), mu * h, mu * h);
    lemma_eqm_add(cx, x + rx * h, cv, b * (y + ry * h) + mu * h);
    lemma_eqm_add(cx + cv, (x + rx * h) + (b * (y + ry * h) + mu * h), ts * zk, ts * z);
    lemma_eqm_add(
        cx + cv + ts * zk,
        (x + rx * h) + (b * (y + ry * h) + mu * h) + ts * z,
        tt,
        tt,
    );
    lemma_eqm_mul(e, e, cx + cv + ts * zk + tt, inner_raw);
    lemma_eqm_add(ad * v, (rd - e * iv) * v, ar * h, (rrho + e * rhor) * h);
    lemma_eqm_add(
        ad * v + ar * h,
        (rd - e * iv) * v + (rrho + e * rhor) * h,
        e * (cx + cv + ts * zk + tt),
        e * inner_raw,
    );
    assert((rd - e * iv) * v == rd * v - e * (iv * v)) by (nonlinear_arith);
    assert((rrho + e * rhor) * h == rrho * h + e * (rhor * h)) by (nonlinear_arith);
    assert(e * (rhor * h) + e * inner_raw == e * (rhor * h + inner_raw)) by (nonlinear_arith);
    assert(-(rx + b * ry + mu) * h + ((x + rx * h) + (b * (y + ry * h) + mu * h) + ts * z + tt)
        == x + b * y + ts * z + tt) by (nonlinear_arith);
    lemma_e_iv_v(e, iv, dd, s, v);
    lemma_eqm_sub(e * s, e * s, e * (iv * v), e * s);
    lemma_eqm_add(rd * v + rrho * h, rd * v + rrho * h, e * s - e * (iv * v), 0);
}

/// The signing-exponent check verifies: the response `a_w` built from
/// `w = x + b·y + ts·z` makes the verifier's combination recover
/// `r_d·V + r_w·G`.
proof fn lemma_cw(e: int, rd: int, iv: int, dd: int, rw: int, s: int, tt: int, v: int)
    requires
        v == modl(s * dd),
        modl(iv * dd) == 1,
    ensures
        modl(modl(rd - e * iv) * v + modl(rw + e * (s - tt)) + e * tt) == modl(rd * v + rw),
{
    let ad = modl(rd - e * iv);
    let aw = modl(rw + e * (s - tt));
    lemma_eqm_modl(rd - e * iv);
    lemma_eqm_mul(ad, rd - e * iv, v, v);
    lemma_eqm_modl(rw + e * (s - tt));
    lemma_eqm_add(ad * v, (rd - e * iv) * v, aw, rw + e * (s - tt));
    lemma_eqm_add(
        ad * v + aw,
        (rd - e * iv) * v + (rw + e * (s - tt)),
        e * tt,
        e * tt,
    );
    assert((rd - e * iv) * v == rd * v - e * (iv * v)) by (nonlinear_arith);
    assert(e * (s - tt) + e * tt == e * s) by (nonlinear_arith);
    lemma_e_iv_v(e, iv, dd, s, v);
    lemma_eqm_sub(e * s, e * s, e * (iv * v), e * s);
    lemma_eqm_add(rd * v + rw, rd * v + rw, e * s - e * (iv * v), 0);
}

} // verus!
