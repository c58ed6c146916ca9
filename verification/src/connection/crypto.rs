use vstd::prelude::*;

use crate::error::AppError;
use aes_gcm::aead::{Aead, KeyInit};
use base64::Engine;
use rand::RngCore;
use vstd::string::StringExecFns;

verus! {

// ---------------------------------------------------------------------------
// Names for what the outside cryptographic and encoding functions return.
// Each is a function of its arguments alone; the wrappers below relate the
// real calls to these names.
// ---------------------------------------------------------------------------

/// The x25519 public key derived from a 32-byte secret key.
pub uninterp spec fn x25519_public_of(secret: Seq<u8>) -> Seq<u8>;

/// The x25519 shared secret of a secret key and a peer public key.
pub uninterp spec fn x25519_shared_of(secret: Seq<u8>, peer: Seq<u8>) -> Seq<u8>;

/// The 32-byte HKDF-SHA256 expansion of input key material under an info label.
pub uninterp spec fn hkdf_sha256_of(ikm: Seq<u8>, info: Seq<u8>) -> Seq<u8>;

/// The AES-256-GCM ciphertext (with appended tag) of a plaintext, with empty
/// associated data.
pub uninterp spec fn aead_enc_of(key: Seq<u8>, nonce: Seq<u8>, plaintext: Seq<u8>) -> Seq<u8>;

/// What AES-256-GCM decryption of a ciphertext returns: the plaintext when
/// the tag verifies, nothing otherwise.
pub uninterp spec fn aead_dec_of(key: Seq<u8>, nonce: Seq<u8>, ciphertext: Seq<u8>) -> Option<
    Seq<u8>,
>;

/// The standard base64 encoding of a byte string.
pub uninterp spec fn b64_of(bytes: Seq<u8>) -> Seq<char>;

/// What standard base64 decoding returns: the bytes for a valid encoding,
/// nothing otherwise.
pub uninterp spec fn b64_dec_of(s: Seq<char>) -> Option<Seq<u8>>;

/// The UTF-8 encoding of a character string.
pub uninterp spec fn utf8_of(s: Seq<char>) -> Seq<u8>;

/// What UTF-8 decoding returns: the characters of a valid encoding, nothing
/// otherwise.
pub uninterp spec fn utf8_decode_of(bytes: Seq<u8>) -> Option<Seq<char>>;

// ---------------------------------------------------------------------------
// Trusted wrappers around the outside calls.
// ---------------------------------------------------------------------------

/// Relies on x25519_dalek::StaticSecret::random_from_rng with the operating
/// system's secure random source: a fresh 32-byte secret key.
#[verifier::external_body]
fn gen_x25519_secret() -> (r: Vec<u8>)
    ensures
        r@.len() == 32,
{
    let secret = x25519_dalek::StaticSecret::random_from_rng(rand::rngs::OsRng);
    secret.to_bytes().to_vec()
}

/// Relies on x25519_dalek::PublicKey::from(&StaticSecret): the public key is
/// a function of the secret key bytes alone, and is 32 bytes long.
#[verifier::external_body]
fn x25519_public(secret: &Vec<u8>) -> (r: Vec<u8>)
    requires
        secret@.len() == 32,
    ensures
        r@ == x25519_public_of(secret@),
        r@.len() == 32,
{
    let mut a = [0u8; 32];
    a.copy_from_slice(secret.as_slice());
    let secret_key = x25519_dalek::StaticSecret::from(a);
    let public = x25519_dalek::PublicKey::from(&secret_key);
    public.as_bytes().to_vec()
}

/// Relies on x25519_dalek::StaticSecret::diffie_hellman: the shared secret is
/// a function of the two key byte strings alone, and is 32 bytes long.
#[verifier::external_body]
fn x25519_shared(secret: &Vec<u8>, peer: &Vec<u8>) -> (r: Vec<u8>)
    requires
        secret@.len() == 32,
        peer@.len() == 32,
    ensures
        r@ == x25519_shared_of(secret@, peer@),
        r@.len() == 32,
{
    let mut sa = [0u8; 32];
    sa.copy_from_slice(secret.as_slice());
    let mut pa = [0u8; 32];
    pa.copy_from_slice(peer.as_slice());
    let secret_key = x25519_dalek::StaticSecret::from(sa);
    let peer_key = x25519_dalek::PublicKey::from(pa);
    secret_key.diffie_hellman(&peer_key).to_bytes().to_vec()
}

/// Relies on hkdf::Hkdf::<sha2::Sha256>::expand, with no salt: the expansion
/// is a function of the key material and the info label, and expanding to 32
/// bytes never fails (the limit is 255 hash lengths).
#[verifier::external_body]
fn hkdf_sha256_expand32(ikm: &Vec<u8>, info: &Vec<u8>) -> (r: Vec<u8>)
    ensures
        r@ == hkdf_sha256_of(ikm@, info@),
        r@.len() == 32,
{
    let hk = hkdf::Hkdf::<sha2::Sha256>::new(None, ikm.as_slice());
    let mut okm = [0u8; 32];
    hk.expand(info.as_slice(), &mut okm).expect("hkdf expansion - fail");
    okm.to_vec()
}

/// Relies on aes_gcm::Aes256Gcm::encrypt with empty associated data: the
/// ciphertext is a function of key, nonce and plaintext; decryption inverts
/// it; and encryption succeeds for any plaintext up to 2^36 bytes.
#[verifier::external_body]
fn aes256gcm_encrypt(key: &Vec<u8>, nonce: &Vec<u8>, plaintext: &Vec<u8>) -> (r: Option<Vec<u8>>)
    requires
        key@.len() == 32,
        nonce@.len() == 12,
    ensures
        match r {
            Some(ct) => ct@ == aead_enc_of(key@, nonce@, plaintext@) && aead_dec_of(
                key@,
                nonce@,
                ct@,
            ) == Some(plaintext@),
            None => true,
        },
        plaintext@.len() <= 0x10_0000_0000 ==> r is Some,
{
    let cipher = aes_gcm::Aes256Gcm::new_from_slice(key.as_slice()).expect("aes key - fail");
    let nonce = aes_gcm::Nonce::from_slice(nonce.as_slice());
    cipher.encrypt(nonce, plaintext.as_slice()).ok()
}

/// Relies on aes_gcm::Aes256Gcm::decrypt with empty associated data: the
/// result is a function of key, nonce and ciphertext, failing exactly when
/// the authentication tag does not verify.
#[verifier::external_body]
fn aes256gcm_decrypt(key: &Vec<u8>, nonce: &Vec<u8>, ciphertext: &Vec<u8>) -> (r: Option<Vec<u8>>)
    requires
        key@.len() == 32,
        nonce@.len() == 12,
    ensures
        match (r, aead_dec_of(key@, nonce@, ciphertext@)) {
            (Some(p), Some(q)) => p@ == q,
            (None, None) => true,
            _ => false,
        },
{
    let cipher = aes_gcm::Aes256Gcm::new_from_slice(key.as_slice()).expect("aes key - fail");
    let nonce = aes_gcm::Nonce::from_slice(nonce.as_slice());
    cipher.decrypt(nonce, ciphertext.as_slice()).ok()
}

/// Relies on rand::rngs::OsRng::fill_bytes: 12 fresh random bytes from the
/// operating system's secure source. Nothing is promised of their values.
#[verifier::external_body]
fn random_nonce12() -> (r: Vec<u8>)
    ensures
        r@.len() == 12,
{
    let mut nonce = [0u8; 12];
    rand::rngs::OsRng.fill_bytes(&mut nonce);
    nonce.to_vec()
}

/// Relies on base64::engine::general_purpose::STANDARD.encode, whose decode
/// inverts it.
#[verifier::external_body]
fn b64_encode(bytes: &Vec<u8>) -> (r: String)
    ensures
        r@ == b64_of(bytes@),
        b64_dec_of(r@) == Some(bytes@),
{
    base64::engine::general_purpose::STANDARD.encode(bytes.as_slice())
}

/// Relies on base64::engine::general_purpose::STANDARD.decode: the result is
/// a function of the input, failing exactly on invalid encodings.
#[verifier::external_body]
fn b64_decode(s: &str) -> (r: Option<Vec<u8>>)
    ensures
        match (r, b64_dec_of(s@)) {
            (Some(b), Some(q)) => b@ == q,
            (None, None) => true,
            _ => false,
        },
{
    base64::engine::general_purpose::STANDARD.decode(s).ok()
}

/// Relies on str::as_bytes: the UTF-8 bytes of the string, a function of its
/// characters; decoding them yields the characters again, and each character
/// takes at most 4 bytes.
#[verifier::external_body]
fn str_bytes(s: &str) -> (r: Vec<u8>)
    ensures
        r@ == utf8_of(s@),
        utf8_decode_of(r@) == Some(s@),
        r@.len() <= 4 * s@.len(),
{
    s.as_bytes().to_vec()
}

/// Relies on String::from_utf8: the result is a function of the bytes,
/// failing exactly on invalid UTF-8.
#[verifier::external_body]
fn bytes_to_string(bytes: &Vec<u8>) -> (r: Option<String>)
    ensures
        match (r, utf8_decode_of(bytes@)) {
            (Some(s), Some(q)) => s@ == q,
            (None, None) => true,
            _ => false,
        },
{
    String::from_utf8(bytes.clone()).ok()
}

// ---------------------------------------------------------------------------
// The session cipher.
// ---------------------------------------------------------------------------

/// The info label of the session key derivation.
pub open spec fn spec_hkdf_info() -> Seq<u8> {
    utf8_of("quillion-aes-key"@)
}

/// The session key derived from our secret key and the server's public key.
pub open spec fn spec_session_key(secret: Seq<u8>, peer: Seq<u8>) -> Seq<u8> {
    hkdf_sha256_of(x25519_shared_of(secret, peer), spec_hkdf_info())
}

/// What decrypting a base64 payload and nonce under a session key returns:
/// nothing when the payload or nonce is not base64, when the nonce is not 12
/// bytes, when the authentication tag does not verify, or when the plaintext
/// is not UTF-8; the plaintext string otherwise.
pub open spec fn spec_decrypt(key: Seq<u8>, data_b64: Seq<char>, nonce_b64: Seq<char>) -> Option<
    Seq<char>,
> {
    match b64_dec_of(data_b64) {
        None => None,
        Some(ct) => match b64_dec_of(nonce_b64) {
            None => None,
            Some(nonce) => if nonce.len() != 12 {
                None
            } else {
                match aead_dec_of(key, nonce, ct) {
                    None => None,
                    Some(pt) => utf8_decode_of(pt),
                }
            },
        },
    }
}

/// The per-connection session cryptography: an ephemeral x25519 keypair and,
/// once the server's public key arrived, the derived AES-256-GCM session key.
pub struct Crypto {
    pub x25519_secret: Vec<u8>,
    pub x25519_public: Vec<u8>,
    pub aes_key: Option<Vec<u8>>,
}

impl Crypto {
    /// The keypair is 32 bytes each, the public key derived from the secret,
    /// and any session key is 32 bytes.
    pub open spec fn wf(self) -> bool {
        &&& self.x25519_secret@.len() == 32
        &&& self.x25519_public@ == x25519_public_of(self.x25519_secret@)
        &&& self.x25519_public@.len() == 32
        &&& match self.aes_key {
            Some(k) => k@.len() == 32,
            None => true,
        }
    }

    /// A session key has been derived; only then is encrypted traffic valid.
    pub open spec fn established(self) -> bool {
        self.aes_key is Some
    }

    /// The derived session key.
    pub open spec fn session_key(self) -> Seq<u8>
        recommends
            self.established(),
    {
        match self.aes_key {
            Some(k) => k@,
            None => Seq::empty(),
        }
    }

    /// A fresh ephemeral keypair with no session key.
    pub fn new() -> (r: Crypto)
        ensures
            r.wf(),
            !r.established(),
    {
        let x25519_secret = gen_x25519_secret();
        let x25519_public = x25519_public(&x25519_secret);
        Crypto { x25519_secret, x25519_public, aes_key: None }
    }

    /// Our public key, base64-encoded for the clear key announcement; it
    /// decodes back to the 32-byte key.
    pub fn public_key_b64(&self) -> (r: String)
        requires
            self.wf(),
        ensures
            r@ == b64_of(self.x25519_public@),
            b64_dec_of(r@) == Some(self.x25519_public@),
    {
        b64_encode(&self.x25519_public)
    }

    /// Derives the session key from the server's base64 public key: succeeds
    /// exactly when the key decodes to 32 bytes, and then stores the
    /// HKDF-SHA256 expansion of the Diffie-Hellman shared secret.
    pub fn derive_shared_secret(&mut self, server_public_key_b64: &str) -> (r: Result<
        (),
        AppError,
    >)
        requires
            old(self).wf(),
        ensures
            final(self).wf(),
            final(self).x25519_secret == old(self).x25519_secret,
            final(self).x25519_public == old(self).x25519_public,
            match b64_dec_of(server_public_key_b64@) {
                Some(peer) => if peer.len() == 32 {
                    r is Ok && final(self).established() && final(self).session_key()
                        == spec_session_key(old(self).x25519_secret@, peer)
                } else {
                    r is Err && final(self).aes_key == old(self).aes_key
                },
                None => r is Err && final(self).aes_key == old(self).aes_key,
            },
    {
        match b64_decode(server_public_key_b64) {
            Some(peer) => {
                if peer.len() == 32 {
                    let shared = x25519_shared(&self.x25519_secret, &peer);
                    let info: Vec<u8> = str_bytes("quillion-aes-key");
                    let key = hkdf_sha256_expand32(&shared, &info);
                    self.aes_key = Some(key);
                    Ok(())
                } else {
                    Err(AppError::CryptoError(String::from_str("invalid public key length")))
                }
            },
            None => Err(AppError::CryptoError(String::from_str("base64 decode error"))),
        }
    }

    /// Encrypts a message under the session key with a fresh random 12-byte
    /// nonce; returns the ciphertext and the nonce, both base64. Fails when
    /// no session key is established. Whatever came back, decrypting it under
    /// the same session key yields the message again.
    pub fn encrypt(&self, message: &str) -> (r: Option<(String, String)>)
        requires
            self.wf(),
        ensures
            !self.established() ==> r is None,
            match r {
                Some(pair) => self.established() && spec_decrypt(
                    self.session_key(),
                    pair.0@,
                    pair.1@,
                ) == Some(message@),
                None => true,
            },
            self.established() && message@.len() <= 0x4000_0000 ==> r is Some,
    {
        match &self.aes_key {
            None => None,
            Some(key) => {
                let nonce = random_nonce12();
                let plaintext = str_bytes(message);
                match aes256gcm_encrypt(key, &nonce, &plaintext) {
                    None => None,
                    Some(ciphertext) => {
                        let data = b64_encode(&ciphertext);
                        let nonce_b64 = b64_encode(&nonce);
                        Some((data, nonce_b64))
                    },
                }
            },
        }
    }

    /// Decrypts a base64 payload and nonce under the session key. Fails — and
    /// never panics — when no session key is established, when either input
    /// is not base64, when the nonce is not exactly 12 bytes, when the
    /// ciphertext was tampered with (the tag does not verify), or when the
    /// plaintext is not UTF-8; exactly as `spec_decrypt` says.
    pub fn decrypt(&self, encrypted_payload_b64: &str, nonce_b64: &str) -> (r: Option<String>)
        requires
            self.wf(),
        ensures
            !self.established() ==> r is None,
            self.established() ==> match (
                r,
                spec_decrypt(self.session_key(), encrypted_payload_b64@, nonce_b64@),
            ) {
                (Some(s), Some(q)) => s@ == q,
                (None, None) => true,
                _ => false,
            },
    {
        match &self.aes_key {
            None => None,
            Some(key) => {
                match (b64_decode(encrypted_payload_b64), b64_decode(nonce_b64)) {
                    (Some(encrypted_bytes), Some(nonce_bytes)) => {
                        if nonce_bytes.len() == 12 {
                            match aes256gcm_decrypt(key, &nonce_bytes, &encrypted_bytes) {
                                Some(decrypted_bytes) => bytes_to_string(&decrypted_bytes),
                                None => None,
                            }
                        } else {
                            None
                        }
                    },
                    _ => None,
                }
            },
        }
    }
}

} // verus!
