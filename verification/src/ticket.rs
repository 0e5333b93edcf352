//! Client-side blinded request values.
//!
//! A `Ticket` is the single group element `T = r·G + tc·Z` the client
//! sends to the server; the `Receipt` keeps the secret opening `(r, tc)`
//! until the token is finalized and is never transmitted.

use vstd::prelude::*;
use crate::algebra::{group_order, lemma_madd, modl};
use crate::bytes::{chunk32, lemma_push_chunk_chunks, push_chunk};
use crate::group::{
    point_add, point_dec, point_decompress, point_enc, point_scalar_mul, point_value,
    ristretto_bytes, scalar_value,
};
use vstd::slice::slice_subrange;
use crate::keys::{PublicKey, PublicKeyV};
use crate::params::PublicParams;
use crate::utils::non_zero_scalar;
use curve25519_dalek_ng::ristretto::RistrettoPoint;
use curve25519_dalek_ng::scalar::Scalar;
use rand_core::OsRng;

verus! {

/// The mathematical content of a ticket: the discrete logarithm of `T`.
pub ghost struct TicketV {
    pub t_big: int,
}

/// The mathematical content of a receipt: the two opening scalars.
pub ghost struct ReceiptV {
    pub r: int,
    pub tc: int,
}

impl TicketV {
    pub open spec fn wf(self) -> bool {
        0 <= self.t_big < group_order()
    }
}

impl ReceiptV {
    /// Both opening scalars are nonzero and reduced.
    pub open spec fn wf(self) -> bool {
        &&& 0 < self.r < group_order()
        &&& 0 < self.tc < group_order()
    }

    /// The receipt opens the ticket for this public key:
    /// `T = r·G + tc·Z`.
    pub open spec fn opens(self, t: TicketV, pk: PublicKeyV) -> bool {
        t.t_big == modl(self.r + self.tc * pk.z_big)
    }
}

#[derive(Debug, PartialEq)]
pub struct Ticket {
    pub t_big: RistrettoPoint,
}

pub struct Receipt {
    pub r: Scalar,
    pub tc: Scalar,
}

impl View for Ticket {
    type V = TicketV;

    open spec fn view(&self) -> TicketV {
        TicketV { t_big: point_value(self.t_big) }
    }
}

impl View for Receipt {
    type V = ReceiptV;

    open spec fn view(&self) -> ReceiptV {
        ReceiptV { r: scalar_value(self.r), tc: scalar_value(self.tc) }
    }
}

impl Ticket {
    /// Draws the two nonzero opening scalars and blinds them into
    /// `T = r·G + tc·Z`.
    pub fn create(rng: &mut OsRng, pk: &PublicKey) -> (res: (Ticket, Receipt))
        ensures
            res.0@.wf(),
            res.1@.wf(),
            res.1@.opens(res.0@, pk@),
    {
        // Two random scalars (r, tc)
        // T = tc * Z + r * G
        let receipt = Receipt { r: non_zero_scalar(rng), tc: non_zero_scalar(rng) };

        let pp = PublicParams::create();
        let r_g = point_scalar_mul(&receipt.r, &pp.g_big);
        let tc_z = point_scalar_mul(&receipt.tc, &pk.z_big);
        let t_big = point_add(&r_g, &tc_z);
        proof {
            lemma_madd(scalar_value(receipt.r) * 1, scalar_value(receipt.tc) * pk@.z_big);
        }

        (Ticket { t_big }, receipt)
    }
}

/// What parsing a 32-byte string as a ticket yields.
pub open spec fn ticket_dec(d: Seq<u8>) -> Option<TicketV> {
    if d.len() == 32 && point_dec(chunk32(d, 0)) is Some {
        Some(TicketV { t_big: point_dec(chunk32(d, 0)).unwrap() })
    } else {
        None
    }
}

impl TicketV {
    /// `e` is the canonical encoding of the ticket's single element.
    pub open spec fn encodes(self, e: Seq<u8>) -> bool {
        &&& e.len() == 32
        &&& chunk32(e, 0) == point_enc(self.t_big)
        &&& point_dec(chunk32(e, 0)) == Some(self.t_big)
    }
}

/// Decoding inverts encoding for every ticket.
pub proof fn lemma_ticket_roundtrip(t: TicketV, e: Seq<u8>)
    requires
        t.encodes(e),
    ensures
        ticket_dec(e) == Some(t),
{
}

impl Ticket {
    /// Encodes the ticket message: one 32-byte group element.
    pub fn encode(&self) -> (out: Vec<u8>)
        ensures
            self@.encodes(out@),
    {
        let mut out: Vec<u8> = Vec::new();
        let ghost s0 = out@;
        let b0 = ristretto_bytes(&self.t_big);
        push_chunk(&mut out, &b0);
        proof {
            lemma_push_chunk_chunks(s0, b0@, 0);
        }
        out
    }

    /// Decodes a 32-byte ticket message; `None` exactly when the length
    /// is wrong or the bytes are not a valid encoding.
    pub fn decode(data: &Vec<u8>) -> (res: Option<Ticket>)
        ensures
            res is Some <==> ticket_dec(data@) is Some,
            res is Some ==> res.unwrap()@ == ticket_dec(data@).unwrap(),
    {
        if data.len() != 32 {
            return None;
        }
        let s = data.as_slice();
        let t_big = match point_decompress(slice_subrange(s, 0, 32)) {
            Some(p) => p,
            None => {
                return None;
            },
        };
        Some(Ticket { t_big })
    }
}

} // verus!
