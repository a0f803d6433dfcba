use paybridge::codec::{decrypt, encrypt};
use paybridge::keys::Keypair;

const SK_A: &str = "6b911fd37cdf5c81d4c0adb1ab7fa822ed253ab0ad9aa18d77257c88b29b718e";
const SK_B: &str = "7b911fd37cdf5c81d4c0adb1ab7fa822ed253ab0ad9aa18d77257c88b29b718e";
const SK_C: &str = "5b911fd37cdf5c81d4c0adb1ab7fa822ed253ab0ad9aa18d77257c88b29b718e";

fn keypair(sk: &str) -> Keypair {
    Keypair::from_secret(String::from(sk)).expect("valid secret key")
}

#[test]
fn from_secret_accepts_valid_hex() {
    let kp = keypair(SK_A);
    let expected = nostr::key::Keys::parse(SK_A).unwrap().public_key().to_hex();
    assert_eq!(kp.public_key_hex(), &expected);
}

#[test]
fn from_secret_rejects_garbage() {
    assert!(Keypair::from_secret(String::from("not a key")).is_none());
    assert!(Keypair::from_secret(String::new()).is_none());
}

#[test]
fn encrypt_decrypt_round_trip() {
    let sender = keypair(SK_A);
    let receiver = keypair(SK_B);
    let msg = String::from("Saturn, bringer of old age");
    let ct = encrypt(&sender, &receiver.public_key_hex().clone(), &msg).expect("usable key");
    let back = decrypt(&receiver, &sender.public_key_hex().clone(), &ct);
    assert_eq!(back.ok().expect("round trip"), msg);
}

#[test]
fn round_trip_is_symmetric_in_the_pair() {
    let a = keypair(SK_A);
    let b = keypair(SK_B);
    let msg = String::from("either direction, one shared secret");
    let ct = encrypt(&b, &a.public_key_hex().clone(), &msg).expect("usable key");
    let back = decrypt(&a, &b.public_key_hex().clone(), &ct);
    assert_eq!(back.ok().expect("round trip"), msg);
}

#[test]
fn mismatched_keys_never_recover_plaintext() {
    let sender = keypair(SK_A);
    let receiver = keypair(SK_B);
    let outsider = keypair(SK_C);
    let msg = String::from("for the receiver only");
    let ct = encrypt(&sender, &receiver.public_key_hex().clone(), &msg).expect("usable key");
    match decrypt(&outsider, &sender.public_key_hex().clone(), &ct) {
        Err(_) => {}
        Ok(p) => assert_ne!(p, msg),
    }
}

#[test]
fn decrypt_rejects_malformed_envelope() {
    let receiver = keypair(SK_B);
    let sender = keypair(SK_A);
    let garbage = String::from("invalidcontentformat");
    assert!(decrypt(&receiver, &sender.public_key_hex().clone(), &garbage).is_err());
}

#[test]
fn encrypt_rejects_unusable_public_key() {
    let sender = keypair(SK_A);
    let msg = String::from("m");
    assert!(encrypt(&sender, &String::from("zzz"), &msg).is_none());
}
