use rand_core::OsRng;

use anon_tokens::blind_sig::BlindSignature;
use anon_tokens::keys::{PublicKey, SecretKey};
use anon_tokens::server::redeem_token;
use anon_tokens::ticket::Ticket;
use anon_tokens::token::Token;

#[test]
pub fn token_redemption_test() {
    let mut rng = OsRng;
    let sk = SecretKey::create(&mut rng);
    let pk = PublicKey::create(&sk);
    let (ticket, receipt) = Ticket::create(&mut rng, &pk);
    let bs = BlindSignature::create(&mut rng, &pk, &sk, &ticket, true);
    let token = Token::create(&mut rng, &pk, &bs, &ticket, &receipt);
    let redemption = redeem_token(&token.unwrap(), &sk);

    assert_eq!(redemption.unwrap(), true);

    let bs = BlindSignature::create(&mut rng, &pk, &sk, &ticket, false);
    let token = Token::create(&mut rng, &pk, &bs, &ticket, &receipt);
    let redemption = redeem_token(&token.unwrap(), &sk);

    assert_eq!(redemption.unwrap(), false);
}

#[test]
pub fn token_redemption_fail_test() {
    let mut rng = OsRng;
    let sk = SecretKey::create(&mut rng);
    let pk = PublicKey::create(&sk);
    let (ticket, receipt) = Ticket::create(&mut rng, &pk);
    let bs = BlindSignature::create(&mut rng, &pk, &sk, &ticket, true);
    let token = Token::create(&mut rng, &pk, &bs, &ticket, &receipt);

    let sk2 = SecretKey::create(&mut rng);
    let redemption = redeem_token(&token.unwrap(), &sk2);

    assert!(redemption.is_err());

    let sk = SecretKey::create(&mut rng);
    let sk2 = SecretKey::create(&mut rng);
    let pk = PublicKey::create(&sk2);
    let (ticket, receipt) = Ticket::create(&mut rng, &pk);
    let bs = BlindSignature::create(&mut rng, &pk, &sk, &ticket, true);
    let token = Token::create(&mut rng, &pk, &bs, &ticket, &receipt);

    assert!(token.is_err());
}
