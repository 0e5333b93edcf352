//! Client-side finalization: the unlinkable token.
//!
//! The client rejects a degenerate signature (`U` equal to the group
//! identity), verifies the proof, and only then unblinds: a fresh
//! nonzero scalar `c` rerandomizes the signature into
//! `P = c·U`, `Q = c·(V - r·U)`, `t = tc + ts`, which is unlinkable to
//! the ticket because `c` never leaves the client.

use vstd::prelude::*;
use crate::algebra::{group_order, lemma_mmul_r, lemma_modl_small, lemma_msub, modl};
use crate::blind_sig::BlindSignature;
use crate::bytes::{
    chunk32, lemma_group_order_fits_32, lemma_le_int_of_le_bytes, lemma_push_chunk_chunks,
    push_chunk, sc_dec, scalar_le32,
};
use crate::group::{
    point_dec, point_decompress, point_enc, point_eq, point_identity, point_scalar_mul,
    point_sub, point_value, ristretto_bytes, scalar_add, scalar_bytes, scalar_from_canonical,
    scalar_value,
};
use vstd::slice::slice_subrange;
use crate::keys::PublicKey;
use crate::ticket::{Receipt, Ticket};
use crate::utils::non_zero_scalar;
use crate::verifier_client::{proof_checks, verify_proof};
use curve25519_dalek_ng::ristretto::RistrettoPoint;
use curve25519_dalek_ng::scalar::Scalar;
use rand_core::OsRng;

verus! {

/// The mathematical content of a token.
pub ghost struct TokenV {
    pub t: int,
    pub p_big: int,
    pub q_big: int,
}

/// The token is an unblinding of the signature parts `(u, v, ts)` by
/// some client scalar `c`, with the receipt's blinding removed.
pub open spec fn unblinds(tok: TokenV, u: int, v: int, ts: int, r: int, tc: int) -> bool {
    &&& tok.t == modl(tc + ts)
    &&& exists|c: int|
        0 < c < group_order() && tok.p_big == #[trigger] modl(c * u) && tok.q_big == modl(
            c * (v - r * u),
        )
}

pub struct Token {
    pub t: Scalar,
    pub p_big: RistrettoPoint,
    pub q_big: RistrettoPoint,
}

impl View for Token {
    type V = TokenV;

    open spec fn view(&self) -> TokenV {
        TokenV {
            t: scalar_value(self.t),
            p_big: point_value(self.p_big),
            q_big: point_value(self.q_big),
        }
    }
}

impl Token {
    /// Finalizes a token from a blind signature: fails, with an opaque
    /// error, exactly when the signature is degenerate (`U` is the
    /// identity) or its proof does not verify; otherwise rerandomizes
    /// and unblinds.  The resulting `P` is never the identity.
    pub fn create(
        rng: &mut OsRng,
        pk: &PublicKey,
        bs: &BlindSignature,
        ticket: &Ticket,
        receipt: &Receipt,
    ) -> (res: Result<Token, ()>)
        requires
            bs@.wf(),
        ensures
            res is Ok <==> bs@.u_big != 0 && proof_checks(
                pk@,
                ticket@,
                bs@.u_big,
                bs@.v_big,
                bs@.ts,
                bs@.pi,
            ),
            bs@.u_big == 0 ==> res is Err,
            res is Ok ==> unblinds(res.unwrap()@, bs@.u_big, bs@.v_big, bs@.ts, receipt@.r,
                receipt@.tc),
            res is Ok ==> res.unwrap()@.p_big != 0,
    {
        let id = point_identity();
        if point_eq(&bs.u_big, &id) {
            return Err(());
        }

        // run the verifier to check the proof pi
        if verify_proof(pk, ticket, bs).is_err() {
            return Err(());
        }

        let c = non_zero_scalar(rng);
        let ghost cv = scalar_value(c);
        let ghost uu = bs@.u_big;
        let ghost vv = bs@.v_big;
        let ghost rr = receipt@.r;

        let p_big = point_scalar_mul(&c, &bs.u_big);
        proof {
            lemma_modl_small(cv);
        }
        let r_u = point_scalar_mul(&receipt.r, &bs.u_big);
        let v_minus = point_sub(&bs.v_big, &r_u);
        let q_big = point_scalar_mul(&c, &v_minus);
        proof {
            lemma_modl_small(vv);
            lemma_msub(vv, rr * uu);
            lemma_mmul_r(cv, vv - rr * uu);
        }
        let t = scalar_add(&receipt.tc, &bs.ts);

        let token = Token { t, p_big, q_big };
        proof {
            assert(token@.p_big == modl(cv * uu) && token@.q_big == modl(cv * (vv - rr * uu)));
            assert(unblinds(token@, uu, vv, bs@.ts, rr, receipt@.tc));
        }
        Ok(token)
    }
}

/// What parsing a 96-byte string as a token yields.
pub open spec fn token_dec(d: Seq<u8>) -> Option<TokenV> {
    if d.len() == 96 && sc_dec(chunk32(d, 0)) is Some && point_dec(chunk32(d, 1)) is Some
        && point_dec(chunk32(d, 2)) is Some {
        Some(
            TokenV {
                t: sc_dec(chunk32(d, 0)).unwrap(),
                p_big: point_dec(chunk32(d, 1)).unwrap(),
                q_big: point_dec(chunk32(d, 2)).unwrap(),
            },
        )
    } else {
        None
    }
}

impl TokenV {
    pub open spec fn wf(self) -> bool {
        0 <= self.t < group_order()
    }

    /// `e` is the field-by-field encoding of this token.
    pub open spec fn encodes(self, e: Seq<u8>) -> bool {
        &&& e.len() == 96
        &&& chunk32(e, 0) == scalar_le32(self.t)
        &&& chunk32(e, 1) == point_enc(self.p_big)
        &&& point_dec(chunk32(e, 1)) == Some(self.p_big)
        &&& chunk32(e, 2) == point_enc(self.q_big)
        &&& point_dec(chunk32(e, 2)) == Some(self.q_big)
    }
}

/// Decoding inverts encoding for every well-formed token.
pub proof fn lemma_token_roundtrip(t: TokenV, e: Seq<u8>)
    requires
        t.wf(),
        t.encodes(e),
    ensures
        token_dec(e) == Some(t),
{
    lemma_group_order_fits_32();
    lemma_le_int_of_le_bytes(t.t, 32);
}

impl Token {
    /// Encodes the token message: `t`, `P`, `Q`, 96 bytes.
    pub fn encode(&self) -> (out: Vec<u8>)
        ensures
            self@.encodes(out@),
    {
        let mut out: Vec<u8> = Vec::new();
        let ghost s0 = out@;
        let b0 = scalar_bytes(&self.t);
        push_chunk(&mut out, &b0);
        proof {
            lemma_push_chunk_chunks(s0, b0@, 0);
        }
        let ghost s1 = out@;
        let b1 = ristretto_bytes(&self.p_big);
        push_chunk(&mut out, &b1);
        proof {
            lemma_push_chunk_chunks(s1, b1@, 1);
        }
        let ghost s2 = out@;
        let b2 = ristretto_bytes(&self.q_big);
        push_chunk(&mut out, &b2);
        proof {
            lemma_push_chunk_chunks(s2, b2@, 2);
        }
        out
    }

    /// Decodes a 96-byte token message; `None` exactly when the length
    /// is wrong, `t` is not canonical, or a point is invalid.
    pub fn decode(data: &Vec<u8>) -> (res: Option<Token>)
        ensures
            res is Some <==> token_dec(data@) is Some,
            res is Some ==> res.unwrap()@ == token_dec(data@).unwrap(),
    {
        if data.len() != 96 {
            return None;
        }
        let s = data.as_slice();
        let t = match scalar_from_canonical(slice_subrange(s, 0, 32)) {
            Some(v) => v,
            None => {
                return None;
            },
        };
        let p_big = match point_decompress(slice_subrange(s, 32, 64)) {
            Some(p) => p,
            None => {
                return None;
            },
        };
        let q_big = match point_decompress(slice_subrange(s, 64, 96)) {
            Some(p) => p,
            None => {
                return None;
            },
        };
        Some(Token { t, p_big, q_big })
    }
}

} // verus!
