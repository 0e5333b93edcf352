//! The trusted boundary to the Ristretto group of curve25519.
//!
//! The Ristretto group is cyclic of prime order `l` (`group_order()`), so
//! the map that sends a group element to its discrete logarithm with
//! respect to the standard base point is an isomorphism onto the integers
//! modulo `l`.  The model used throughout this crate is exactly that
//! isomorphism:
//!
//! - `scalar_value(s)` is the integer a `Scalar` holds: the little-endian
//!   value of its 32-byte representation;
//! - `point_value(p)` is the discrete logarithm of a `RistrettoPoint` with
//!   respect to the standard base point, as a representative in `[0, l)`.
//!
//! Every function below is a thin wrapper around `curve25519_dalek_ng`,
//! `sha2` or `rand_core`; its contract states, in terms of this model,
//! what the wrapped call is documented to compute.

use vstd::prelude::*;
use crate::algebra::{group_order, modl};
use crate::bytes::{le_int, scalar_le32};
use curve25519_dalek_ng::ristretto::CompressedRistretto;
use curve25519_dalek_ng::ristretto::RistrettoPoint;
use curve25519_dalek_ng::scalar::Scalar;
use curve25519_dalek_ng::traits::Identity;
use rand_core::OsRng;
use sha2::Digest;
use sha2::Sha512;

verus! {

#[verifier::external_type_specification]
#[verifier::external_body]
pub struct ExScalar(Scalar);

#[verifier::external_type_specification]
#[verifier::external_body]
pub struct ExRistrettoPoint(RistrettoPoint);

#[verifier::external_type_specification]
#[verifier::external_body]
pub struct ExOsRng(OsRng);

/// The integer a `Scalar` holds: the little-endian value of its 32-byte
/// representation.
pub uninterp spec fn scalar_value(s: Scalar) -> int;

/// The discrete logarithm of a point with respect to the standard base
/// point, as a representative in `[0, group_order())`.
pub uninterp spec fn point_value(p: RistrettoPoint) -> int;

/// The canonical 32-byte encoding of the group element whose discrete
/// logarithm is `d`.
pub uninterp spec fn point_enc(d: int) -> Seq<u8>;

/// What decompressing a 32-byte string yields: the discrete logarithm of
/// the encoded group element, or `None` if the string is not a canonical
/// encoding.
pub uninterp spec fn point_dec(b: Seq<u8>) -> Option<int>;

/// The discrete logarithm of the group element that hashing a byte string
/// to the group yields.
pub uninterp spec fn point_from_hash(b: Seq<u8>) -> int;

/// The SHA-512 digest of a byte string.
pub uninterp spec fn sha512_of(b: Seq<u8>) -> Seq<u8>;

/// Relies on `Scalar::random`: a scalar reduced modulo the group order,
/// drawn from a cryptographically secure source.  Nothing relates the
/// result to the arguments: every call may return a different scalar.
#[verifier::external_body]
pub(crate) fn random_scalar(rng: &mut OsRng) -> (s: Scalar)
    ensures
        0 <= scalar_value(s) < group_order(),
{
    Scalar::random(rng)
}

/// Relies on `Scalar::from_bytes_mod_order`: the little-endian value of
/// the bytes, reduced modulo the group order.
#[verifier::external_body]
pub(crate) fn scalar_from_bytes(b: &[u8; 32]) -> (s: Scalar)
    ensures
        scalar_value(s) == modl(le_int(b@)),
        0 <= scalar_value(s) < group_order(),
{
    Scalar::from_bytes_mod_order(*b)
}

/// Relies on `Scalar::from_bytes_mod_order_wide`: the little-endian value
/// of the 64 bytes, reduced modulo the group order.
#[verifier::external_body]
pub(crate) fn scalar_from_wide_bytes(b: &[u8; 64]) -> (s: Scalar)
    ensures
        scalar_value(s) == modl(le_int(b@)),
        0 <= scalar_value(s) < group_order(),
{
    Scalar::from_bytes_mod_order_wide(b)
}

/// Relies on `Scalar::from_canonical_bytes`: `Some` exactly when the
/// little-endian value of the bytes is already reduced, and then the
/// scalar holds that value.
#[verifier::external_body]
pub(crate) fn scalar_from_canonical(b: &[u8]) -> (r: Option<Scalar>)
    requires
        b@.len() == 32,
    ensures
        le_int(b@) < group_order() ==> r is Some && scalar_value(r.unwrap()) == le_int(b@),
        le_int(b@) >= group_order() ==> r is None,
{
    Scalar::from_canonical_bytes(b.try_into().unwrap())
}

/// Relies on `Scalar::to_bytes`: the little-endian representation of the
/// value the scalar holds.
#[verifier::external_body]
pub fn scalar_bytes(s: &Scalar) -> (b: [u8; 32])
    ensures
        b@ == scalar_le32(scalar_value(*s)),
{
    s.to_bytes()
}

/// Relies on `Scalar` addition: reduced addition modulo the group order.
#[verifier::external_body]
pub(crate) fn scalar_add(a: &Scalar, b: &Scalar) -> (r: Scalar)
    ensures
        scalar_value(r) == modl(scalar_value(*a) + scalar_value(*b)),
        0 <= scalar_value(r) < group_order(),
{
    a + b
}

/// Relies on `Scalar` subtraction: reduced subtraction modulo the group
/// order.
#[verifier::external_body]
pub(crate) fn scalar_sub(a: &Scalar, b: &Scalar) -> (r: Scalar)
    ensures
        scalar_value(r) == modl(scalar_value(*a) - scalar_value(*b)),
        0 <= scalar_value(r) < group_order(),
{
    a - b
}

/// Relies on `Scalar` multiplication: reduced multiplication modulo the
/// group order.
#[verifier::external_body]
pub(crate) fn scalar_mul(a: &Scalar, b: &Scalar) -> (r: Scalar)
    ensures
        scalar_value(r) == modl(scalar_value(*a) * scalar_value(*b)),
        0 <= scalar_value(r) < group_order(),
{
    a * b
}

/// Relies on `Scalar` negation: the reduced additive inverse modulo the
/// group order.
#[verifier::external_body]
pub(crate) fn scalar_neg(a: &Scalar) -> (r: Scalar)
    ensures
        scalar_value(r) == modl(-scalar_value(*a)),
        0 <= scalar_value(r) < group_order(),
{
    -a
}

/// Relies on `Scalar::invert`: the multiplicative inverse of a nonzero
/// scalar modulo the prime group order.
#[verifier::external_body]
pub(crate) fn scalar_invert(a: &Scalar) -> (r: Scalar)
    requires
        modl(scalar_value(*a)) != 0,
    ensures
        modl(scalar_value(r) * scalar_value(*a)) == 1,
        0 <= scalar_value(r) < group_order(),
{
    a.invert()
}

/// Relies on `Scalar`'s `PartialEq`: constant-time comparison of the two
/// 32-byte representations.
#[verifier::external_body]
pub(crate) fn scalar_eq(a: &Scalar, b: &Scalar) -> (r: bool)
    ensures
        r == (scalar_value(*a) == scalar_value(*b)),
{
    a == b
}

/// Relies on `constants::RISTRETTO_BASEPOINT_POINT`: the standard base
/// point, the generator the model takes discrete logarithms against.
#[verifier::external_body]
pub(crate) fn basepoint() -> (p: RistrettoPoint)
    ensures
        point_value(p) == 1,
{
    curve25519_dalek_ng::constants::RISTRETTO_BASEPOINT_POINT
}

/// Relies on `RistrettoPoint::identity`: the neutral element of the group.
#[verifier::external_body]
pub(crate) fn point_identity() -> (p: RistrettoPoint)
    ensures
        point_value(p) == 0,
{
    RistrettoPoint::identity()
}

/// Relies on `RistrettoPoint` addition: the group operation, which adds
/// discrete logarithms modulo the group order.
#[verifier::external_body]
pub(crate) fn point_add(a: &RistrettoPoint, b: &RistrettoPoint) -> (r: RistrettoPoint)
    ensures
        point_value(r) == modl(point_value(*a) + point_value(*b)),
        0 <= point_value(r) < group_order(),
{
    a + b
}

/// Relies on `RistrettoPoint` subtraction: the group operation with the
/// inverse, which subtracts discrete logarithms modulo the group order.
#[verifier::external_body]
pub(crate) fn point_sub(a: &RistrettoPoint, b: &RistrettoPoint) -> (r: RistrettoPoint)
    ensures
        point_value(r) == modl(point_value(*a) - point_value(*b)),
        0 <= point_value(r) < group_order(),
{
    a - b
}

/// Relies on `Scalar * RistrettoPoint`: scalar multiplication, which
/// multiplies the discrete logarithm by the scalar modulo the group
/// order.  The last clause holds because the group order is prime: a
/// product of two values not divisible by the prime is not divisible by
/// it, so a nonzero multiple of a non-identity element is not the
/// identity.
#[verifier::external_body]
pub(crate) fn point_scalar_mul(s: &Scalar, p: &RistrettoPoint) -> (r: RistrettoPoint)
    ensures
        point_value(r) == modl(scalar_value(*s) * point_value(*p)),
        0 <= point_value(r) < group_order(),
        modl(scalar_value(*s)) != 0 && point_value(*p) != 0 ==> point_value(r) != 0,
{
    s * p
}

/// Relies on `RistrettoPoint`'s `PartialEq`: proper equality of group
/// elements (equivalence-class equality, not byte comparison), which under
/// the isomorphism is equality of discrete logarithms.
#[verifier::external_body]
pub(crate) fn point_eq(a: &RistrettoPoint, b: &RistrettoPoint) -> (r: bool)
    ensures
        r == (point_value(*a) == point_value(*b)),
{
    a == b
}

/// Relies on `RistrettoPoint::compress`: the canonical 32-byte encoding
/// of the group element.  Compression is injective and `decompress`
/// inverts it, which the second clause records.
#[verifier::external_body]
pub fn ristretto_bytes(p: &RistrettoPoint) -> (b: [u8; 32])
    ensures
        b@ == point_enc(point_value(*p)),
        point_dec(b@) == Some(point_value(*p)),
{
    p.compress().to_bytes()
}

/// Relies on `CompressedRistretto::decompress`: `Some` exactly for the
/// canonical encodings of group elements, and then the encoded element.
#[verifier::external_body]
pub(crate) fn point_decompress(b: &[u8]) -> (r: Option<RistrettoPoint>)
    requires
        b@.len() == 32,
    ensures
        r is Some <==> point_dec(b@) is Some,
        r is Some ==> Some(point_value(r.unwrap())) == point_dec(b@)
            && 0 <= point_value(r.unwrap()) < group_order(),
{
    CompressedRistretto::from_slice(b).decompress()
}

/// Relies on `RistrettoPoint::hash_from_bytes::<Sha512>`: a group element
/// derived deterministically from the input alone.
#[verifier::external_body]
pub(crate) fn hash_to_point(b: &[u8; 32]) -> (p: RistrettoPoint)
    ensures
        point_value(p) == point_from_hash(b@),
        0 <= point_value(p) < group_order(),
{
    RistrettoPoint::hash_from_bytes::<Sha512>(b)
}

/// Relies on `sha2::Sha512`: the SHA-512 digest of the input, a function
/// of the input alone.
#[verifier::external_body]
pub(crate) fn sha512(data: &Vec<u8>) -> (h: [u8; 64])
    ensures
        h@ == sha512_of(data@),
{
    let digest = Sha512::digest(data.as_slice());
    let mut out = [0u8; 64];
    out.copy_from_slice(&digest);
    out
}

} // verus!
