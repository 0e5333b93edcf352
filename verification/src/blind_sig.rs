//! The server's response: a blind signature with one hidden metadata bit.
//!
//! `U = d·G` and `V = (X + b·Y + ts·Z + T)·d` for fresh nonzero scalars
//! `ts`, `d`, together with the proof of §`prover_server` that the pair
//! was formed this way for one of the two bit values.

use vstd::prelude::*;
use crate::algebra::{group_order, lemma_madd, lemma_madd_r, lemma_mmul_r, lemma_modl_small, modl};
use crate::bytes::{
    chunk32, lemma_group_order_fits_32, lemma_le_int_of_le_bytes, lemma_push_chunk_chunks,
    push_chunk, sc_dec, scalar_le32,
};
use crate::group::{
    point_add, point_dec, point_decompress, point_enc, point_scalar_mul, point_value,
    ristretto_bytes, scalar_bytes, scalar_from_canonical, scalar_value,
};
use vstd::slice::slice_subrange;
use crate::keys::{PublicKey, SecretKey, SecretKeyV};
use crate::params::PublicParams;
use crate::prover_server::{Proof, ProofV};
use crate::ticket::{Ticket, TicketV};
use crate::utils::{non_zero_scalar, one_scalar, zero_scalar};
use crate::verifier_client::proof_checks;
use curve25519_dalek_ng::ristretto::RistrettoPoint;
use curve25519_dalek_ng::scalar::Scalar;
use rand_core::OsRng;

verus! {

/// The hidden bit as the scalar `0` or `1`.
pub open spec fn bit_scalar(b: bool) -> int {
    if b {
        1
    } else {
        0
    }
}

/// The mathematical content of a blind signature.
pub ghost struct BlindSignatureV {
    pub u_big: int,
    pub v_big: int,
    pub ts: int,
    pub pi: ProofV,
}

impl BlindSignatureV {
    pub open spec fn wf(self) -> bool {
        &&& 0 <= self.u_big < group_order()
        &&& 0 <= self.v_big < group_order()
        &&& 0 <= self.ts < group_order()
        &&& self.pi.wf()
    }

    /// The signature parts are those an honest signer computes for the
    /// secret key, the ticket and the bit `b`.
    pub open spec fn issued_for(self, sk: SecretKeyV, t: TicketV, b: bool) -> bool {
        &&& 0 < self.u_big < group_order()
        &&& 0 < self.ts < group_order()
        &&& self.v_big == modl(
            (sk.x + bit_scalar(b) * sk.y + self.ts * sk.z + t.t_big) * self.u_big,
        )
    }
}

pub struct BlindSignature {
    pub u_big: RistrettoPoint,
    pub v_big: RistrettoPoint,
    pub ts: Scalar,
    pub pi: Proof,
}

impl View for BlindSignature {
    type V = BlindSignatureV;

    open spec fn view(&self) -> BlindSignatureV {
        BlindSignatureV {
            u_big: point_value(self.u_big),
            v_big: point_value(self.v_big),
            ts: scalar_value(self.ts),
            pi: self.pi@,
        }
    }
}

impl BlindSignature {
    /// Signs the ticket under the secret key, embedding the hidden bit
    /// `b`, and attaches the proof of correct construction.
    pub fn create(rng: &mut OsRng, pk: &PublicKey, sk: &SecretKey, t: &Ticket, b: bool) -> (bs:
        BlindSignature)
        requires
            sk@.wf(),
            pk@.derived_from(sk@),
            t@.wf(),
        ensures
            bs@.wf(),
            bs@.issued_for(sk@, t@, b),
            proof_checks(pk@, t@, bs@.u_big, bs@.v_big, bs@.ts, bs@.pi),
    {
        let ghost bv = bit_scalar(b);
        let ghost tt = t@.t_big;

        let ts = non_zero_scalar(rng);
        let d = non_zero_scalar(rng);
        let ghost dd = scalar_value(d);
        let ghost tsv = scalar_value(ts);

        let pp = PublicParams::create();
        let u_big = point_scalar_mul(&d, &pp.g_big);
        proof {
            lemma_modl_small(dd);
        }
        assert(point_value(u_big) == dd);

        let scalar_bit = if b {
            one_scalar()
        } else {
            zero_scalar()
        };
        assert(scalar_value(scalar_bit) == bv);

        // V = (X + b * Y + ts * Z + T) * d
        let b_y_big = point_scalar_mul(&scalar_bit, &sk.y_big);
        let ts_z_big = point_scalar_mul(&ts, &pk.z_big);
        let sum1 = point_add(&sk.x_big, &b_y_big);
        let sum2 = point_add(&sum1, &ts_z_big);
        let sum3 = point_add(&sum2, &t.t_big);
        let v_big = point_scalar_mul(&d, &sum3);
        proof {
            lemma_madd_r(sk@.x, bv * sk@.y);
            lemma_mmul_r(tsv, sk@.z);
            lemma_madd(sk@.x + bv * sk@.y, tsv * sk@.z);
            lemma_mmul_r(dd, sk@.x + bv * sk@.y + tsv * sk@.z + tt);
        }
        assert(point_value(sum3) == modl(sk@.x + bv * sk@.y + tsv * sk@.z + tt)) by {
            lemma_madd_r(tt, sk@.x + bv * sk@.y + tsv * sk@.z);
        }
        assert(point_value(v_big) == modl((sk@.x + bv * sk@.y + tsv * sk@.z + tt) * dd)) by {
            assert(dd * (sk@.x + bv * sk@.y + tsv * sk@.z + tt) == (sk@.x + bv * sk@.y + tsv
                * sk@.z + tt) * dd) by (nonlinear_arith);
        }

        // generate the proof pi
        let pi = Proof::create(rng, sk, pk, t, &u_big, &v_big, &ts, &scalar_bit, &d);

        BlindSignature { u_big, v_big, ts, pi }
    }
}

/// What parsing a 352-byte string as a blind signature yields: `U`,
/// `V`, `ts`, then the proof's `C` and seven scalars.
pub open spec fn bs_dec(d: Seq<u8>) -> Option<BlindSignatureV> {
    if d.len() == 352 && point_dec(chunk32(d, 0)) is Some && point_dec(chunk32(d, 1)) is Some
        && sc_dec(chunk32(d, 2)) is Some && point_dec(chunk32(d, 3)) is Some && sc_dec(
        chunk32(d, 4),
    ) is Some && sc_dec(chunk32(d, 5)) is Some && sc_dec(chunk32(d, 6)) is Some && sc_dec(
        chunk32(d, 7),
    ) is Some && sc_dec(chunk32(d, 8)) is Some && sc_dec(chunk32(d, 9)) is Some && sc_dec(
        chunk32(d, 10),
    ) is Some {
        Some(
            BlindSignatureV {
                u_big: point_dec(chunk32(d, 0)).unwrap(),
                v_big: point_dec(chunk32(d, 1)).unwrap(),
                ts: sc_dec(chunk32(d, 2)).unwrap(),
                pi: ProofV {
                    c_big: point_dec(chunk32(d, 3)).unwrap(),
                    e_zero: sc_dec(chunk32(d, 4)).unwrap(),
                    e_one: sc_dec(chunk32(d, 5)).unwrap(),
                    a_zero: sc_dec(chunk32(d, 6)).unwrap(),
                    a_one: sc_dec(chunk32(d, 7)).unwrap(),
                    a_d: sc_dec(chunk32(d, 8)).unwrap(),
                    a_rho: sc_dec(chunk32(d, 9)).unwrap(),
                    a_w: sc_dec(chunk32(d, 10)).unwrap(),
                },
            },
        )
    } else {
        None
    }
}

impl BlindSignatureV {
    /// `e` is the field-by-field encoding of this signature message.
    pub open spec fn encodes(self, e: Seq<u8>) -> bool {
        &&& e.len() == 352
        &&& chunk32(e, 0) == point_enc(self.u_big)
        &&& point_dec(chunk32(e, 0)) == Some(self.u_big)
        &&& chunk32(e, 1) == point_enc(self.v_big)
        &&& point_dec(chunk32(e, 1)) == Some(self.v_big)
        &&& chunk32(e, 2) == scalar_le32(self.ts)
        &&& chunk32(e, 3) == point_enc(self.pi.c_big)
        &&& point_dec(chunk32(e, 3)) == Some(self.pi.c_big)
        &&& chunk32(e, 4) == scalar_le32(self.pi.e_zero)
        &&& chunk32(e, 5) == scalar_le32(self.pi.e_one)
        &&& chunk32(e, 6) == scalar_le32(self.pi.a_zero)
        &&& chunk32(e, 7) == scalar_le32(self.pi.a_one)
        &&& chunk32(e, 8) == scalar_le32(self.pi.a_d)
        &&& chunk32(e, 9) == scalar_le32(self.pi.a_rho)
        &&& chunk32(e, 10) == scalar_le32(self.pi.a_w)
    }
}

/// Decoding inverts encoding for every well-formed blind signature.
pub proof fn lemma_blind_signature_roundtrip(b: BlindSignatureV, e: Seq<u8>)
    requires
        b.wf(),
        b.encodes(e),
    ensures
        bs_dec(e) == Some(b),
{
    lemma_group_order_fits_32();
    lemma_le_int_of_le_bytes(b.ts, 32);
    lemma_le_int_of_le_bytes(b.pi.e_zero, 32);
    lemma_le_int_of_le_bytes(b.pi.e_one, 32);
    lemma_le_int_of_le_bytes(b.pi.a_zero, 32);
    lemma_le_int_of_le_bytes(b.pi.a_one, 32);
    lemma_le_int_of_le_bytes(b.pi.a_d, 32);
    lemma_le_int_of_le_bytes(b.pi.a_rho, 32);
    lemma_le_int_of_le_bytes(b.pi.a_w, 32);
}

impl BlindSignature {
    /// Encodes the signature message: `U`, `V`, `ts` and the proof,
    /// 352 bytes.
    pub fn encode(&self) -> (out: Vec<u8>)
        ensures
            self@.encodes(out@),
    {
        let mut out: Vec<u8> = Vec::new();
        let ghost s0 = out@;
        let b0 = ristretto_bytes(&self.u_big);
        push_chunk(&mut out, &b0);
        proof {
            lemma_push_chunk_chunks(s0, b0@, 0);
        }
        let ghost s1 = out@;
        let b1 = ristretto_bytes(&self.v_big);
        push_chunk(&mut out, &b1);
        proof {
            lemma_push_chunk_chunks(s1, b1@, 1);
        }
        let ghost s2 = out@;
        let b2 = scalar_bytes(&self.ts);
        push_chunk(&mut out, &b2);
        proof {
            lemma_push_chunk_chunks(s2, b2@, 2);
        }
        let ghost s3 = out@;
        let b3 = ristretto_bytes(&self.pi.c_big);
        push_chunk(&mut out, &b3);
        proof {
            lemma_push_chunk_chunks(s3, b3@, 3);
        }
        let ghost s4 = out@;
        let b4 = scalar_bytes(&self.pi.e_zero);
        push_chunk(&mut out, &b4);
        proof {
            lemma_push_chunk_chunks(s4, b4@, 4);
        }
        let ghost s5 = out@;
        let b5 = scalar_bytes(&self.pi.e_one);
        push_chunk(&mut out, &b5);
        proof {
            lemma_push_chunk_chunks(s5, b5@, 5);
        }
        let ghost s6 = out@;
        let b6 = scalar_bytes(&self.pi.a_zero);
        push_chunk(&mut out, &b6);
        proof {
            lemma_push_chunk_chunks(s6, b6@, 6);
        }
        let ghost s7 = out@;
        let b7 = scalar_bytes(&self.pi.a_one);
        push_chunk(&mut out, &b7);
        proof {
            lemma_push_chunk_chunks(s7, b7@, 7);
        }
        let ghost s8 = out@;
        let b8 = scalar_bytes(&self.pi.a_d);
        push_chunk(&mut out, &b8);
        proof {
            lemma_push_chunk_chunks(s8, b8@, 8);
        }
        let ghost s9 = out@;
        let b9 = scalar_bytes(&self.pi.a_rho);
        push_chunk(&mut out, &b9);
        proof {
            lemma_push_chunk_chunks(s9, b9@, 9);
        }
        let ghost s10 = out@;
        let b10 = scalar_bytes(&self.pi.a_w);
        push_chunk(&mut out, &b10);
        proof {
            lemma_push_chunk_chunks(s10, b10@, 10);
        }
        out
    }

    /// Decodes a 352-byte signature message; `None` exactly when the
    /// length is wrong, a scalar is not canonical, or a point is
    /// invalid.
    pub fn decode(data: &Vec<u8>) -> (res: Option<BlindSignature>)
        ensures
            res is Some <==> bs_dec(data@) is Some,
            res is Some ==> res.unwrap()@ == bs_dec(data@).unwrap(),
    {
        if data.len() != 352 {
            return None;
        }
        let s = data.as_slice();
        let u_big = match point_decompress(slice_subrange(s, 0, 32)) {
            Some(p) => p,
            None => {
                return None;
            },
        };
        let v_big = match point_decompress(slice_subrange(s, 32, 64)) {
            Some(p) => p,
            None => {
                return None;
            },
        };
        let ts = match scalar_from_canonical(slice_subrange(s, 64, 96)) {
            Some(v) => v,
            None => {
                return None;
            },
        };
        let c_big = match point_decompress(slice_subrange(s, 96, 128)) {
            Some(p) => p,
            None => {
                return None;
            },
        };
        let e_zero = match scalar_from_canonical(slice_subrange(s, 128, 160)) {
            Some(v) => v,
            None => {
                return None;
            },
        };
        let e_one = match scalar_from_canonical(slice_subrange(s, 160, 192)) {
            Some(v) => v,
            None => {
                return None;
            },
        };
        let a_zero = match scalar_from_canonical(slice_subrange(s, 192, 224)) {
            Some(v) => v,
            None => {
                return None;
            },
        };
        let a_one = match scalar_from_canonical(slice_subrange(s, 224, 256)) {
            Some(v) => v,
            None => {
                return None;
            },
        };
        let a_d = match scalar_from_canonical(slice_subrange(s, 256, 288)) {
            Some(v) => v,
            None => {
                return None;
            },
        };
        let a_rho = match scalar_from_canonical(slice_subrange(s, 288, 320)) {
            Some(v) => v,
            None => {
                return None;
            },
        };
        let a_w = match scalar_from_canonical(slice_subrange(s, 320, 352)) {
            Some(v) => v,
            None => {
                return None;
            },
        };
        Some(
            BlindSignature {
                u_big,
                v_big,
                ts,
                pi: Proof { c_big, e_zero, e_one, a_zero, a_one, a_d, a_rho, a_w },
            },
        )
    }
}

} // verus!
