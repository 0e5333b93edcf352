use anon_tokens::keys::{PublicKey, SecretKey};
use rand_core::OsRng;

#[test]
fn secret_key_test() {
    let mut rng = OsRng;
    let sk1 = SecretKey::create(&mut rng);
    let sk2 = SecretKey::create(&mut rng);
    assert_ne!(sk1, sk2);
}

#[test]
fn secret_key_serialization_test() {
    let mut rng = OsRng;
    let sk1 = SecretKey::create(&mut rng);
    let sk1_bytes = sk1.encode();

    let sk2: SecretKey = SecretKey::decode(&sk1_bytes).unwrap();

    assert_eq!(sk1, sk2);
}

#[test]
fn client_public_key_serialization_test() {
    let mut rng = OsRng;
    let sk1 = SecretKey::create(&mut rng);
    let cpk1 = PublicKey::create(&sk1);
    let cpk1_bytes = cpk1.encode();

    let cpk2: PublicKey = PublicKey::decode(&cpk1_bytes).unwrap();

    assert_eq!(cpk1, cpk2);

    let sk2 = SecretKey::create(&mut rng);
    let cpk3 = PublicKey::create(&sk2);

    assert_ne!(sk1, sk2);
    assert_ne!(cpk1, cpk3);
}
