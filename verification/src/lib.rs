//! Anonymous-token issuance and redemption with one hidden metadata bit.
//!
//! A server blindly signs a client-chosen value while embedding a hidden
//! bit of server-chosen metadata; the client finalizes an unlinkable token
//! and the key holder later recovers the bit at redemption.  The group
//! arithmetic is carried out on the Ristretto group of curve25519; every
//! protocol computation is specified and verified over the integers modulo
//! the prime group order.

pub mod algebra;
pub mod blind_sig;
pub mod bytes;
pub mod group;
pub mod keys;
pub mod laws;
pub mod params;
pub mod prover_server;
pub mod server;
pub mod ticket;
pub mod token;
pub mod utils;
pub mod verifier_client;
