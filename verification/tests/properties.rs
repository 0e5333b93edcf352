use curve25519_dalek_ng::ristretto::RistrettoPoint;
use curve25519_dalek_ng::traits::Identity;
use rand_core::OsRng;

use anon_tokens::blind_sig::BlindSignature;
use anon_tokens::keys::{PublicKey, SecretKey};
use anon_tokens::laws::issue_and_redeem;
use anon_tokens::server::redeem_token;
use anon_tokens::ticket::Ticket;
use anon_tokens::token::Token;
use anon_tokens::verifier_client::verify_proof;

#[test]
fn full_pipeline_both_bits() {
    let mut rng = OsRng;
    assert_eq!(issue_and_redeem(&mut rng, true), Ok(true));
    assert_eq!(issue_and_redeem(&mut rng, false), Ok(false));
}

#[test]
fn ticket_roundtrip() {
    let mut rng = OsRng;
    let sk = SecretKey::create(&mut rng);
    let pk = PublicKey::create(&sk);
    let (ticket, _receipt) = Ticket::create(&mut rng, &pk);
    let bytes = ticket.encode();
    assert_eq!(bytes.len(), 32);
    let ticket2 = Ticket::decode(&bytes).unwrap();
    assert_eq!(ticket, ticket2);
}

#[test]
fn blind_signature_roundtrip() {
    let mut rng = OsRng;
    let sk = SecretKey::create(&mut rng);
    let pk = PublicKey::create(&sk);
    let (ticket, _receipt) = Ticket::create(&mut rng, &pk);
    let bs = BlindSignature::create(&mut rng, &pk, &sk, &ticket, true);
    let bytes = bs.encode();
    assert_eq!(bytes.len(), 352);
    let bs2 = BlindSignature::decode(&bytes).unwrap();
    assert_eq!(bs.u_big, bs2.u_big);
    assert_eq!(bs.v_big, bs2.v_big);
    assert_eq!(bs.ts, bs2.ts);
    assert_eq!(bs.pi, bs2.pi);
    assert!(verify_proof(&pk, &ticket, &bs2).is_ok());
}

#[test]
fn token_roundtrip() {
    let mut rng = OsRng;
    let sk = SecretKey::create(&mut rng);
    let pk = PublicKey::create(&sk);
    let (ticket, receipt) = Ticket::create(&mut rng, &pk);
    let bs = BlindSignature::create(&mut rng, &pk, &sk, &ticket, false);
    let token = Token::create(&mut rng, &pk, &bs, &ticket, &receipt).unwrap();
    let bytes = token.encode();
    assert_eq!(bytes.len(), 96);
    let token2 = Token::decode(&bytes).unwrap();
    assert_eq!(token.t, token2.t);
    assert_eq!(token.p_big, token2.p_big);
    assert_eq!(token.q_big, token2.q_big);
    assert_eq!(redeem_token(&token2, &sk), Ok(false));
}

#[test]
fn decode_rejects_bad_lengths() {
    let empty: Vec<u8> = Vec::new();
    assert!(SecretKey::decode(&empty).is_none());
    assert!(PublicKey::decode(&empty).is_none());
    assert!(Ticket::decode(&empty).is_none());
    assert!(BlindSignature::decode(&empty).is_none());
    assert!(Token::decode(&empty).is_none());
    let short = vec![0u8; 31];
    assert!(Ticket::decode(&short).is_none());
}

#[test]
fn decode_rejects_non_canonical_scalar() {
    // a secret-key encoding whose first scalar field is all ones is not
    // a canonical scalar
    let bytes = vec![0xffu8; 224];
    assert!(SecretKey::decode(&bytes).is_none());
}

#[test]
fn decode_rejects_invalid_point() {
    // all-ones bytes name a field element above the field prime, which
    // is not a canonical point encoding
    let bytes = vec![0xffu8; 32];
    assert!(Ticket::decode(&bytes).is_none());
    let pk_bytes = vec![0xffu8; 96];
    assert!(PublicKey::decode(&pk_bytes).is_none());
}

#[test]
fn degenerate_signature_rejected() {
    let mut rng = OsRng;
    let sk = SecretKey::create(&mut rng);
    let pk = PublicKey::create(&sk);
    let (ticket, receipt) = Ticket::create(&mut rng, &pk);
    let mut bs = BlindSignature::create(&mut rng, &pk, &sk, &ticket, true);
    bs.u_big = RistrettoPoint::identity();
    let token = Token::create(&mut rng, &pk, &bs, &ticket, &receipt);
    assert!(token.is_err());
}

#[test]
fn tampered_signature_rejected() {
    let mut rng = OsRng;
    let sk = SecretKey::create(&mut rng);
    let pk = PublicKey::create(&sk);
    let (ticket, receipt) = Ticket::create(&mut rng, &pk);
    let bs = BlindSignature::create(&mut rng, &pk, &sk, &ticket, true);
    let bytes = bs.encode();
    for i in 0..bytes.len() {
        let mut tampered = bytes.clone();
        tampered[i] ^= 0x01;
        match BlindSignature::decode(&tampered) {
            None => {}
            Some(bad) => {
                let token = Token::create(&mut rng, &pk, &bad, &ticket, &receipt);
                assert!(token.is_err(), "tampered byte {} was accepted", i);
            }
        }
    }
}
