//! Little-endian byte encodings of scalar values.
//!
//! Scalars cross the API boundary as 32-byte little-endian strings; this
//! module gives that encoding a mathematical definition and the facts the
//! codec proofs need.

use vstd::prelude::*;
use crate::algebra::group_order;

verus! {

/// The `k`-th 32-byte block of a byte string.
pub open spec fn chunk32(d: Seq<u8>, k: int) -> Seq<u8> {
    d.subrange(32 * k, 32 * k + 32)
}

/// What parsing a 32-byte block as a canonical scalar yields: the
/// little-endian value if it is reduced, and nothing otherwise.
pub open spec fn sc_dec(c: Seq<u8>) -> Option<int> {
    if le_int(c) < group_order() {
        Some(le_int(c))
    } else {
        None
    }
}

/// The integer that a little-endian byte string denotes.
pub open spec fn le_int(s: Seq<u8>) -> int
    decreases s.len(),
{
    if s.len() == 0 {
        0
    } else {
        s[0] + 256 * le_int(s.skip(1))
    }
}

/// `256^k`.
pub open spec fn pow256(k: nat) -> int
    decreases k,
{
    if k == 0 {
        1
    } else {
        256 * pow256((k - 1) as nat)
    }
}

/// The `k`-byte little-endian encoding of `n`.
pub open spec fn le_bytes(n: int, k: nat) -> Seq<u8>
    decreases k,
{
    if k == 0 {
        Seq::empty()
    } else {
        seq![(n % 256) as u8] + le_bytes(n / 256, (k - 1) as nat)
    }
}

/// The 32-byte little-endian encoding of a scalar value.
pub open spec fn scalar_le32(n: int) -> Seq<u8> {
    le_bytes(n, 32)
}

pub proof fn lemma_le_bytes_len(n: int, k: nat)
    ensures
        le_bytes(n, k).len() == k,
    decreases k,
{
    if k > 0 {
        lemma_le_bytes_len(n / 256, (k - 1) as nat);
    }
}

pub proof fn lemma_pow256_positive(k: nat)
    ensures
        pow256(k) >= 1,
    decreases k,
{
    if k > 0 {
        lemma_pow256_positive((k - 1) as nat);
    }
}

/// Decoding inverts encoding for values that fit in `k` bytes.
pub proof fn lemma_le_int_of_le_bytes(n: int, k: nat)
    requires
        0 <= n < pow256(k),
    ensures
        le_int(le_bytes(n, k)) == n,
    decreases k,
{
    if k == 0 {
    } else {
        let s = le_bytes(n, k);
        let tail = le_bytes(n / 256, (k - 1) as nat);
        lemma_le_bytes_len(n / 256, (k - 1) as nat);
        assert(s.skip(1) =~= tail);
        lemma_pow256_positive((k - 1) as nat);
        assert(0 <= n / 256 < pow256((k - 1) as nat)) by {
            assert(n / 256 * 256 + n % 256 == n) by {
                vstd::arithmetic::div_mod::lemma_fundamental_div_mod(n, 256);
            }
        }
        lemma_le_int_of_le_bytes(n / 256, (k - 1) as nat);
        assert(le_int(s) == n % 256 + 256 * (n / 256));
        vstd::arithmetic::div_mod::lemma_fundamental_div_mod(n, 256);
    }
}

/// A byte string of zeroes denotes zero.
pub proof fn lemma_le_int_all_zero(s: Seq<u8>)
    requires
        forall|i: int| 0 <= i < s.len() ==> s[i] == 0,
    ensures
        le_int(s) == 0,
    decreases s.len(),
{
    if s.len() > 0 {
        lemma_le_int_all_zero(s.skip(1));
    }
}

/// A byte string whose tail is all zeroes denotes its first byte.
pub proof fn lemma_le_int_single(s: Seq<u8>)
    requires
        s.len() > 0,
        forall|i: int| 1 <= i < s.len() ==> s[i] == 0,
    ensures
        le_int(s) == s[0],
{
    lemma_le_int_all_zero(s.skip(1));
}

/// `group_order()` fits in 32 bytes.
pub proof fn lemma_group_order_fits_32()
    ensures
        group_order() < pow256(32),
{
    reveal_with_fuel(pow256, 33);
    assert(pow256(32)
        == 0x10000000000000000000000000000000000000000000000000000000000000000);
}

/// Appends a 32-byte block to a byte buffer.
pub fn push_chunk(out: &mut Vec<u8>, chunk: &[u8; 32])
    ensures
        final(out)@ == old(out)@ + chunk@,
{
    let mut i: usize = 0;
    while i < 32
        invariant
            0 <= i <= 32,
            out@ == old(out)@ + chunk@.subrange(0, i as int),
        decreases 32 - i,
    {
        proof {
            assert(old(out)@ + chunk@.subrange(0, i + 1) =~= (old(out)@ + chunk@.subrange(
                0,
                i as int,
            )).push(chunk@[i as int]));
        }
        out.push(chunk[i]);
        i = i + 1;
    }
    proof {
        assert(chunk@.subrange(0, 32) =~= chunk@);
    }
}

/// Appending a 32-byte block to a buffer of `k` blocks makes it block
/// `k` and leaves the earlier blocks unchanged.
pub proof fn lemma_push_chunk_chunks(prefix: Seq<u8>, c: Seq<u8>, k: int)
    requires
        0 <= k,
        prefix.len() == 32 * k,
        c.len() == 32,
    ensures
        chunk32(prefix + c, k) == c,
        forall|j: int| 0 <= j < k ==> chunk32(prefix + c, j) == chunk32(prefix, j),
{
    assert(chunk32(prefix + c, k) =~= c);
    assert forall|j: int| 0 <= j < k implies chunk32(prefix + c, j) == chunk32(prefix, j) by {
        assert(chunk32(prefix + c, j) =~= chunk32(prefix, j));
    }
}

} // verus!
