//! Signing keys and their public counterparts.
//!
//! A secret key holds three signing scalars `x`, `y`, `z` and the
//! commitment randomness `r_x`, `r_y`; the public key exposes `Z = z·G`
//! and Pedersen commitments `C_x = x·G + r_x·H`, `C_y = y·G + r_y·H`
//! that hide `x` and `y`.

use vstd::prelude::*;
use crate::algebra::{group_order, lemma_madd, lemma_modl_small, modl};
use crate::bytes::{
    chunk32, lemma_group_order_fits_32, lemma_le_int_of_le_bytes, lemma_push_chunk_chunks,
    push_chunk, sc_dec, scalar_le32,
};
use crate::group::{
    point_add, point_dec, point_decompress, point_enc, point_scalar_mul, point_value,
    ristretto_bytes, scalar_bytes, scalar_from_canonical, scalar_value,
};
use crate::params::{std_h, PublicParams};
use crate::utils::non_zero_scalar;
use curve25519_dalek_ng::ristretto::RistrettoPoint;
use curve25519_dalek_ng::scalar::Scalar;
use rand_core::OsRng;
use vstd::slice::slice_subrange;

verus! {

/// The mathematical content of a public key: the discrete logarithms of
/// its three group elements.
pub ghost struct PublicKeyV {
    pub z_big: int,
    pub c_big_x: int,
    pub c_big_y: int,
}

/// The mathematical content of a secret key.
pub ghost struct SecretKeyV {
    pub x: int,
    pub y: int,
    pub z: int,
    pub x_big: int,
    pub y_big: int,
    pub r_x: int,
    pub r_y: int,
}

impl SecretKeyV {
    /// The five drawn scalars are nonzero and reduced, and the two
    /// exposed points are the scalars' multiples of `G`.
    pub open spec fn wf(self) -> bool {
        &&& 0 < self.x < group_order()
        &&& 0 < self.y < group_order()
        &&& 0 < self.z < group_order()
        &&& 0 < self.r_x < group_order()
        &&& 0 < self.r_y < group_order()
        &&& self.x_big == self.x
        &&& self.y_big == self.y
    }
}

impl PublicKeyV {
    pub open spec fn wf(self) -> bool {
        &&& 0 <= self.z_big < group_order()
        &&& 0 <= self.c_big_x < group_order()
        &&& 0 <= self.c_big_y < group_order()
    }

    /// The public key derived from `sk`: `Z = z·G`, `C_x = x·G + r_x·H`,
    /// `C_y = y·G + r_y·H`.
    pub open spec fn derived_from(self, sk: SecretKeyV) -> bool {
        &&& self.z_big == modl(sk.z)
        &&& self.c_big_x == modl(sk.x + sk.r_x * std_h())
        &&& self.c_big_y == modl(sk.y + sk.r_y * std_h())
    }
}

#[derive(Debug, PartialEq)]
pub struct PublicKey {
    pub z_big: RistrettoPoint,
    pub c_big_x: RistrettoPoint,
    pub c_big_y: RistrettoPoint,
}

#[derive(Debug, PartialEq)]
pub struct SecretKey {
    // 3 scalars
    pub x: Scalar,
    pub y: Scalar,
    // Corresponds to client public key
    pub z: Scalar,
    pub x_big: RistrettoPoint,
    pub y_big: RistrettoPoint,
    // Corresponding to commitments on x and y
    pub r_x: Scalar,
    pub r_y: Scalar,
}

impl View for PublicKey {
    type V = PublicKeyV;

    open spec fn view(&self) -> PublicKeyV {
        PublicKeyV {
            z_big: point_value(self.z_big),
            c_big_x: point_value(self.c_big_x),
            c_big_y: point_value(self.c_big_y),
        }
    }
}

impl View for SecretKey {
    type V = SecretKeyV;

    open spec fn view(&self) -> SecretKeyV {
        SecretKeyV {
            x: scalar_value(self.x),
            y: scalar_value(self.y),
            z: scalar_value(self.z),
            x_big: point_value(self.x_big),
            y_big: point_value(self.y_big),
            r_x: scalar_value(self.r_x),
            r_y: scalar_value(self.r_y),
        }
    }
}

impl SecretKey {
    /// Draws the five nonzero secret scalars and derives `X = x·G`,
    /// `Y = y·G`.
    pub fn create(rng: &mut OsRng) -> (sk: SecretKey)
        ensures
            sk@.wf(),
    {
        let x = non_zero_scalar(rng);
        let y = non_zero_scalar(rng);
        let z = non_zero_scalar(rng);
        let r_x = non_zero_scalar(rng);
        let r_y = non_zero_scalar(rng);

        let pp = PublicParams::create();
        let x_big = point_scalar_mul(&x, &pp.g_big);
        let y_big = point_scalar_mul(&y, &pp.g_big);
        proof {
            lemma_modl_small(scalar_value(x));
            lemma_modl_small(scalar_value(y));
        }

        SecretKey { x, y, z, x_big, y_big, r_x, r_y }
    }
}

impl PublicKey {
    /// Derives the public key from the secret key: a pure function with
    /// no randomness and no error path.
    pub fn create(secret_key: &SecretKey) -> (pk: PublicKey)
        ensures
            pk@.derived_from(secret_key@),
            pk@.wf(),
    {
        let pp = PublicParams::create();
        let z_big = point_scalar_mul(&secret_key.z, &pp.g_big);
        let x_g = point_scalar_mul(&secret_key.x, &pp.g_big);
        let rx_h = point_scalar_mul(&secret_key.r_x, &pp.h_big);
        let c_big_x = point_add(&x_g, &rx_h);
        let y_g = point_scalar_mul(&secret_key.y, &pp.g_big);
        let ry_h = point_scalar_mul(&secret_key.r_y, &pp.h_big);
        let c_big_y = point_add(&y_g, &ry_h);
        proof {
            lemma_madd(scalar_value(secret_key.x) * 1, scalar_value(secret_key.r_x) * std_h());
            lemma_madd(scalar_value(secret_key.y) * 1, scalar_value(secret_key.r_y) * std_h());
        }
        PublicKey { z_big, c_big_x, c_big_y }
    }
}

/// What parsing a 224-byte string as a secret key yields: seven 32-byte
/// fields in declaration order, scalars canonical, points valid.
pub open spec fn sk_dec(d: Seq<u8>) -> Option<SecretKeyV> {
    if d.len() == 224 && sc_dec(chunk32(d, 0)) is Some && sc_dec(chunk32(d, 1)) is Some
        && sc_dec(chunk32(d, 2)) is Some && point_dec(chunk32(d, 3)) is Some && point_dec(
        chunk32(d, 4),
    ) is Some && sc_dec(chunk32(d, 5)) is Some && sc_dec(chunk32(d, 6)) is Some {
        Some(
            SecretKeyV {
                x: sc_dec(chunk32(d, 0)).unwrap(),
                y: sc_dec(chunk32(d, 1)).unwrap(),
                z: sc_dec(chunk32(d, 2)).unwrap(),
                x_big: point_dec(chunk32(d, 3)).unwrap(),
                y_big: point_dec(chunk32(d, 4)).unwrap(),
                r_x: sc_dec(chunk32(d, 5)).unwrap(),
                r_y: sc_dec(chunk32(d, 6)).unwrap(),
            },
        )
    } else {
        None
    }
}

impl SecretKeyV {
    /// `e` is the field-by-field encoding of this key: each scalar as
    /// its 32-byte little-endian string, each point as its canonical
    /// compressed encoding (which decompression inverts).
    pub open spec fn encodes(self, e: Seq<u8>) -> bool {
        &&& e.len() == 224
        &&& chunk32(e, 0) == scalar_le32(self.x)
        &&& chunk32(e, 1) == scalar_le32(self.y)
        &&& chunk32(e, 2) == scalar_le32(self.z)
        &&& chunk32(e, 3) == point_enc(self.x_big)
        &&& point_dec(chunk32(e, 3)) == Some(self.x_big)
        &&& chunk32(e, 4) == point_enc(self.y_big)
        &&& point_dec(chunk32(e, 4)) == Some(self.y_big)
        &&& chunk32(e, 5) == scalar_le32(self.r_x)
        &&& chunk32(e, 6) == scalar_le32(self.r_y)
    }
}

/// Decoding inverts encoding for every well-formed secret key.
pub proof fn lemma_secret_key_roundtrip(k: SecretKeyV, e: Seq<u8>)
    requires
        k.wf(),
        k.encodes(e),
    ensures
        sk_dec(e) == Some(k),
{
    lemma_group_order_fits_32();
    lemma_le_int_of_le_bytes(k.x, 32);
    lemma_le_int_of_le_bytes(k.y, 32);
    lemma_le_int_of_le_bytes(k.z, 32);
    lemma_le_int_of_le_bytes(k.r_x, 32);
    lemma_le_int_of_le_bytes(k.r_y, 32);
}

impl SecretKey {
    /// Encodes the key field by field into 224 bytes.
    pub fn encode(&self) -> (out: Vec<u8>)
        ensures
            self@.encodes(out@),
    {
        let mut out: Vec<u8> = Vec::new();
        let ghost s0 = out@;
        let b0 = scalar_bytes(&self.x);
        push_chunk(&mut out, &b0);
        proof {
            lemma_push_chunk_chunks(s0, b0@, 0);
        }
        let ghost s1 = out@;
        let b1 = scalar_bytes(&self.y);
        push_chunk(&mut out, &b1);
        proof {
            lemma_push_chunk_chunks(s1, b1@, 1);
        }
        let ghost s2 = out@;
        let b2 = scalar_bytes(&self.z);
        push_chunk(&mut out, &b2);
        proof {
            lemma_push_chunk_chunks(s2, b2@, 2);
        }
        let ghost s3 = out@;
        let b3 = ristretto_bytes(&self.x_big);
        push_chunk(&mut out, &b3);
        proof {
            lemma_push_chunk_chunks(s3, b3@, 3);
        }
        let ghost s4 = out@;
        let b4 = ristretto_bytes(&self.y_big);
        push_chunk(&mut out, &b4);
        proof {
            lemma_push_chunk_chunks(s4, b4@, 4);
        }
        let ghost s5 = out@;
        let b5 = scalar_bytes(&self.r_x);
        push_chunk(&mut out, &b5);
        proof {
            lemma_push_chunk_chunks(s5, b5@, 5);
        }
        let ghost s6 = out@;
        let b6 = scalar_bytes(&self.r_y);
        push_chunk(&mut out, &b6);
        proof {
            lemma_push_chunk_chunks(s6, b6@, 6);
        }
        out
    }

    /// Decodes a 224-byte encoding; `None` exactly when the length is
    /// wrong, a scalar field is not canonical, or a point field is not
    /// a valid encoding.
    pub fn decode(data: &Vec<u8>) -> (res: Option<SecretKey>)
        ensures
            res is Some <==> sk_dec(data@) is Some,
            res is Some ==> res.unwrap()@ == sk_dec(data@).unwrap(),
    {
        if data.len() != 224 {
            return None;
        }
        let s = data.as_slice();
        let x = match scalar_from_canonical(slice_subrange(s, 0, 32)) {
            Some(v) => v,
            None => {
                return None;
            },
        };
        let y = match scalar_from_canonical(slice_subrange(s, 32, 64)) {
            Some(v) => v,
            None => {
                return None;
            },
        };
        let z = match scalar_from_canonical(slice_subrange(s, 64, 96)) {
            Some(v) => v,
            None => {
                return None;
            },
        };
        let x_big = match point_decompress(slice_subrange(s, 96, 128)) {
            Some(p) => p,
            None => {
                return None;
            },
        };
        let y_big = match point_decompress(slice_subrange(s, 128, 160)) {
            Some(p) => p,
            None => {
                return None;
            },
        };
        let r_x = match scalar_from_canonical(slice_subrange(s, 160, 192)) {
            Some(v) => v,
            None => {
                return None;
            },
        };
        let r_y = match scalar_from_canonical(slice_subrange(s, 192, 224)) {
            Some(v) => v,
            None => {
                return None;
            },
        };
        Some(SecretKey { x, y, z, x_big, y_big, r_x, r_y })
    }
}

/// What parsing a 96-byte string as a public key yields.
pub open spec fn pk_dec(d: Seq<u8>) -> Option<PublicKeyV> {
    if d.len() == 96 && point_dec(chunk32(d, 0)) is Some && point_dec(chunk32(d, 1)) is Some
        && point_dec(chunk32(d, 2)) is Some {
        Some(
            PublicKeyV {
                z_big: point_dec(chunk32(d, 0)).unwrap(),
                c_big_x: point_dec(chunk32(d, 1)).unwrap(),
                c_big_y: point_dec(chunk32(d, 2)).unwrap(),
            },
        )
    } else {
        None
    }
}

impl PublicKeyV {
    /// `e` is the field-by-field encoding of this public key.
    pub open spec fn encodes(self, e: Seq<u8>) -> bool {
        &&& e.len() == 96
        &&& chunk32(e, 0) == point_enc(self.z_big)
        &&& point_dec(chunk32(e, 0)) == Some(self.z_big)
        &&& chunk32(e, 1) == point_enc(self.c_big_x)
        &&& point_dec(chunk32(e, 1)) == Some(self.c_big_x)
        &&& chunk32(e, 2) == point_enc(self.c_big_y)
        &&& point_dec(chunk32(e, 2)) == Some(self.c_big_y)
    }
}

/// Decoding inverts encoding for every public key.
pub proof fn lemma_public_key_roundtrip(k: PublicKeyV, e: Seq<u8>)
    requires
        k.encodes(e),
    ensures
        pk_dec(e) == Some(k),
{
}

impl PublicKey {
    /// Encodes the public key field by field into 96 bytes.
    pub fn encode(&self) -> (out: Vec<u8>)
        ensures
            self@.encodes(out@),
    {
        let mut out: Vec<u8> = Vec::new();
        let ghost s0 = out@;
        let b0 = ristretto_bytes(&self.z_big);
        push_chunk(&mut out, &b0);
        proof {
            lemma_push_chunk_chunks(s0, b0@, 0);
        }
        let ghost s1 = out@;
        let b1 = ristretto_bytes(&self.c_big_x);
        push_chunk(&mut out, &b1);
        proof {
            lemma_push_chunk_chunks(s1, b1@, 1);
        }
        let ghost s2 = out@;
        let b2 = ristretto_bytes(&self.c_big_y);
        push_chunk(&mut out, &b2);
        proof {
            lemma_push_chunk_chunks(s2, b2@, 2);
        }
        out
    }

    /// Decodes a 96-byte encoding; `None` exactly when the length is
    /// wrong or a point field is not a valid encoding.
    pub fn decode(data: &Vec<u8>) -> (res: Option<PublicKey>)
        ensures
            res is Some <==> pk_dec(data@) is Some,
            res is Some ==> res.unwrap()@ == pk_dec(data@).unwrap(),
    {
        if data.len() != 96 {
            return None;
        }
        let s = data.as_slice();
        let z_big = match point_decompress(slice_subrange(s, 0, 32)) {
            Some(p) => p,
            None => {
                return None;
            },
        };
        let c_big_x = match point_decompress(slice_subrange(s, 32, 64)) {
            Some(p) => p,
            None => {
                return None;
            },
        };
        let c_big_y = match point_decompress(slice_subrange(s, 64, 96)) {
            Some(p) => p,
            None => {
                return None;
            },
        };
        Some(PublicKey { z_big, c_big_x, c_big_y })
    }
}

} // verus!
