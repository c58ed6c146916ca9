use aes_gcm::aead::{Aead, KeyInit};
use base64::Engine;
use quillion_client::connection::crypto::Crypto;

fn server_keypair() -> (x25519_dalek::StaticSecret, String) {
    let secret = x25519_dalek::StaticSecret::random_from_rng(rand::rngs::OsRng);
    let public = x25519_dalek::PublicKey::from(&secret);
    let b64 = base64::engine::general_purpose::STANDARD.encode(public.as_bytes());
    (secret, b64)
}

fn session_key(server_secret: &x25519_dalek::StaticSecret, client_pub_b64: &str) -> [u8; 32] {
    let client_pub_bytes = base64::engine::general_purpose::STANDARD
        .decode(client_pub_b64)
        .unwrap();
    let mut arr = [0u8; 32];
    arr.copy_from_slice(&client_pub_bytes);
    let client_pub = x25519_dalek::PublicKey::from(arr);
    let shared = server_secret.diffie_hellman(&client_pub);
    let hk = hkdf::Hkdf::<sha2::Sha256>::new(None, shared.as_bytes());
    let mut key = [0u8; 32];
    hk.expand(b"quillion-aes-key", &mut key).unwrap();
    key
}

#[test]
fn public_key_is_32_bytes_of_base64() {
    let crypto = Crypto::new();
    let b64 = crypto.public_key_b64();
    let bytes = base64::engine::general_purpose::STANDARD
        .decode(&b64)
        .unwrap();
    assert_eq!(bytes.len(), 32);
}

#[test]
fn encrypt_before_key_fails() {
    let crypto = Crypto::new();
    assert!(crypto.encrypt("hello").is_none());
}

#[test]
fn decrypt_before_key_fails() {
    let crypto = Crypto::new();
    assert!(crypto.decrypt("aGVsbG8=", "AAAAAAAAAAAAAAAA").is_none());
}

#[test]
fn derive_rejects_bad_base64() {
    let mut crypto = Crypto::new();
    assert!(crypto.derive_shared_secret("!!!not base64!!!").is_err());
    assert!(crypto.aes_key.is_none());
}

#[test]
fn derive_rejects_wrong_length_key() {
    let mut crypto = Crypto::new();
    let short = base64::engine::general_purpose::STANDARD.encode([7u8; 16]);
    assert!(crypto.derive_shared_secret(&short).is_err());
    assert!(crypto.aes_key.is_none());
}

#[test]
fn derive_accepts_server_key() {
    let mut crypto = Crypto::new();
    let (_secret, server_pub_b64) = server_keypair();
    assert!(crypto.derive_shared_secret(&server_pub_b64).is_ok());
    assert!(crypto.aes_key.is_some());
}

#[test]
fn encrypt_decrypt_round_trip() {
    let mut crypto = Crypto::new();
    let (_secret, server_pub_b64) = server_keypair();
    crypto.derive_shared_secret(&server_pub_b64).unwrap();
    let message = "a message with unicode \u{00fc} and \"quotes\"";
    let (data, nonce) = crypto.encrypt(message).unwrap();
    let back = crypto.decrypt(&data, &nonce).unwrap();
    assert_eq!(back, message);
}

#[test]
fn two_encrypts_use_distinct_nonces() {
    let mut crypto = Crypto::new();
    let (_secret, server_pub_b64) = server_keypair();
    crypto.derive_shared_secret(&server_pub_b64).unwrap();
    let (_d1, n1) = crypto.encrypt("m").unwrap();
    let (_d2, n2) = crypto.encrypt("m").unwrap();
    assert_ne!(n1, n2);
    let n1_bytes = base64::engine::general_purpose::STANDARD.decode(&n1).unwrap();
    assert_eq!(n1_bytes.len(), 12);
}

#[test]
fn server_can_decrypt_client_ciphertext() {
    let mut crypto = Crypto::new();
    let (server_secret, server_pub_b64) = server_keypair();
    crypto.derive_shared_secret(&server_pub_b64).unwrap();
    let (data, nonce) = crypto.encrypt("shared secret channel").unwrap();

    let key = session_key(&server_secret, &crypto.public_key_b64());
    let cipher = aes_gcm::Aes256Gcm::new_from_slice(&key).unwrap();
    let ct = base64::engine::general_purpose::STANDARD.decode(&data).unwrap();
    let nonce_bytes = base64::engine::general_purpose::STANDARD.decode(&nonce).unwrap();
    let pt = cipher
        .decrypt(aes_gcm::Nonce::from_slice(&nonce_bytes), ct.as_slice())
        .unwrap();
    assert_eq!(String::from_utf8(pt).unwrap(), "shared secret channel");
}

#[test]
fn decrypt_rejects_non_base64_payload() {
    let mut crypto = Crypto::new();
    let (_secret, server_pub_b64) = server_keypair();
    crypto.derive_shared_secret(&server_pub_b64).unwrap();
    let (_data, nonce) = crypto.encrypt("x").unwrap();
    assert!(crypto.decrypt("@@@@", &nonce).is_none());
}

#[test]
fn decrypt_rejects_wrong_nonce_length() {
    let mut crypto = Crypto::new();
    let (_secret, server_pub_b64) = server_keypair();
    crypto.derive_shared_secret(&server_pub_b64).unwrap();
    let (data, _nonce) = crypto.encrypt("x").unwrap();
    let short_nonce = base64::engine::general_purpose::STANDARD.encode([0u8; 8]);
    assert!(crypto.decrypt(&data, &short_nonce).is_none());
}

#[test]
fn decrypt_rejects_tampered_ciphertext() {
    let mut crypto = Crypto::new();
    let (_secret, server_pub_b64) = server_keypair();
    crypto.derive_shared_secret(&server_pub_b64).unwrap();
    let (data, nonce) = crypto.encrypt("integrity matters").unwrap();
    let mut ct = base64::engine::general_purpose::STANDARD.decode(&data).unwrap();
    for i in 0..ct.len() {
        let mut tampered = ct.clone();
        tampered[i] ^= 0x01;
        let tampered_b64 = base64::engine::general_purpose::STANDARD.encode(&tampered);
        assert!(crypto.decrypt(&tampered_b64, &nonce).is_none());
    }
    // untampered still decrypts
    ct[0] ^= 0;
    assert!(crypto.decrypt(&data, &nonce).is_some());
}
