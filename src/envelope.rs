use vstd::prelude::*;

use chacha20poly1305::aead::{Aead, AeadCore, KeyInit, OsRng};
use chacha20poly1305::{Key, XChaCha20Poly1305, XNonce};

verus! {

/// Length of a derived store key.
pub const KEY_LEN: usize = 32;

/// Length of the nonce that starts every sealed blob.
pub const NONCE_LEN: usize = 24;

/// Length of the authentication tag that ends every sealed blob.
pub const TAG_LEN: usize = 16;

/// Argon2id (default parameters) of a password under a salt, 32 bytes.
pub uninterp spec fn argon2_key(password: Seq<u8>, salt: Seq<u8>) -> Seq<u8>;

/// XChaCha20-Poly1305 sealing of a plaintext, without associated data:
/// ciphertext followed by the tag.
pub uninterp spec fn xchacha_seal(key: Seq<u8>, nonce: Seq<u8>, plaintext: Seq<u8>) -> Seq<u8>;

/// XChaCha20-Poly1305 opening of a ciphertext with its tag, without associated
/// data; `None` where the tag does not verify.
pub uninterp spec fn xchacha_open(key: Seq<u8>, nonce: Seq<u8>, sealed: Seq<u8>) -> Option<Seq<u8>>;

/// Failures of the envelope cipher.
#[derive(Clone, Copy, Debug, PartialEq, Eq, Structural)]
pub enum CryptoError {
    /// The password or the salt is outside what the key derivation accepts.
    KeyDerivation,
    /// The tag did not verify: wrong passphrase, or tampered or corrupted data.
    Authentication,
}

/// Inputs that the key derivation accepts.
pub open spec fn derivation_accepts(password: Seq<u8>, salt: Seq<u8>) -> bool {
    &&& password.len() <= 0xffff_ffff
    &&& 8 <= salt.len() <= 0xffff_ffff
}

/// Plaintexts short enough for one XChaCha20-Poly1305 message.
pub open spec fn sealable(plaintext: Seq<u8>) -> bool {
    plaintext.len() / 64 < 0xffff_ffff
}

/// What a blob `nonce || ciphertext || tag` opens to under `key`.
pub open spec fn open_blob(key: Seq<u8>, blob: Seq<u8>) -> Option<Seq<u8>> {
    if blob.len() < NONCE_LEN {
        None
    } else {
        xchacha_open(key, blob.take(NONCE_LEN as int), blob.skip(NONCE_LEN as int))
    }
}

/// A blob that `encrypt_secret` could have returned for `plaintext`: some nonce
/// followed by the sealing of the plaintext under that nonce.
pub open spec fn is_sealing_of(key: Seq<u8>, plaintext: Seq<u8>, blob: Seq<u8>) -> bool {
    &&& blob.len() >= NONCE_LEN
    &&& blob.skip(NONCE_LEN as int) == xchacha_seal(key, blob.take(NONCE_LEN as int), plaintext)
}

/// Relies on argon2's `Argon2::default().hash_password_into`, which fails only
/// for a password longer than 0xffff_ffff bytes or a salt outside 8..=0xffff_ffff
/// bytes, and otherwise fills the 32-byte output with the hash.
#[verifier::external_body]
fn argon2_hash(password: &[u8], salt: &[u8]) -> (r: Option<Vec<u8>>)
    ensures
        r is Some <==> derivation_accepts(password@, salt@),
        r matches Some(k) ==> k@ == argon2_key(password@, salt@) && k@.len() == KEY_LEN,
{
    let mut out = [0u8; 32];
    match argon2::Argon2::default().hash_password_into(password, salt, &mut out) {
        Ok(()) => Some(out.to_vec()),
        Err(_) => None,
    }
}

/// Relies on chacha20poly1305's `XChaCha20Poly1305` (`KeyInit::new`,
/// `Aead::encrypt`): the output is the ciphertext and a 16-byte tag, which the
/// same key and nonce open back to the plaintext; it fails only for messages
/// of 0xffff_ffff blocks of 64 bytes or more.
#[verifier::external_body]
fn xchacha_encrypt(key: &[u8], nonce: &[u8], plaintext: &[u8]) -> (r: Vec<u8>)
    requires
        key@.len() == KEY_LEN,
        nonce@.len() == NONCE_LEN,
        sealable(plaintext@),
    ensures
        r@ == xchacha_seal(key@, nonce@, plaintext@),
        r@.len() == plaintext@.len() + TAG_LEN,
        xchacha_open(key@, nonce@, r@) == Some(plaintext@),
{
    let cipher = XChaCha20Poly1305::new(Key::from_slice(key));
    cipher.encrypt(XNonce::from_slice(nonce), plaintext).unwrap_or_default()
}

/// Relies on chacha20poly1305's `XChaCha20Poly1305` (`KeyInit::new`,
/// `Aead::decrypt`): the plaintext where the tag verifies, nothing otherwise.
#[verifier::external_body]
fn xchacha_decrypt(key: &[u8], nonce: &[u8], sealed: &[u8]) -> (r: Option<Vec<u8>>)
    requires
        key@.len() == KEY_LEN,
        nonce@.len() == NONCE_LEN,
    ensures
        match xchacha_open(key@, nonce@, sealed@) {
            Some(p) => r matches Some(v) && v@ == p,
            None => r is None,
        },
{
    let cipher = XChaCha20Poly1305::new(Key::from_slice(key));
    cipher.decrypt(XNonce::from_slice(nonce), sealed).ok()
}

/// Relies on `AeadCore::generate_nonce` of `XChaCha20Poly1305` with the
/// operating system's random source: 24 fresh bytes.
#[verifier::external_body]
fn random_nonce() -> (r: Vec<u8>)
    ensures
        r@.len() == NONCE_LEN,
{
    XChaCha20Poly1305::generate_nonce(&mut OsRng).to_vec()
}

/// Derives the 32-byte store key from a passphrase and the store's salt.
/// Deterministic: the same inputs give the same key.
pub fn derive_key(password: &[u8], salt: &[u8]) -> (r: Result<Vec<u8>, CryptoError>)
    ensures
        r is Ok <==> derivation_accepts(password@, salt@),
        r matches Ok(k) ==> k@ == argon2_key(password@, salt@) && k@.len() == KEY_LEN,
        r matches Err(e) ==> e == CryptoError::KeyDerivation,
{
    match argon2_hash(password, salt) {
        Some(k) => Ok(k),
        None => Err(CryptoError::KeyDerivation),
    }
}

/// Seals a secret under `key` with a fresh random nonce; the blob is
/// `nonce || ciphertext || tag`, and it opens back to the secret under `key`.
pub fn encrypt_secret(key: &[u8], plaintext: &[u8]) -> (r: Vec<u8>)
    requires
        key@.len() == KEY_LEN,
        sealable(plaintext@),
    ensures
        r@.len() == NONCE_LEN + plaintext@.len() + TAG_LEN,
        is_sealing_of(key@, plaintext@, r@),
        open_blob(key@, r@) == Some(plaintext@),
{
    let nonce = random_nonce();
    let sealed = xchacha_encrypt(key, nonce.as_slice(), plaintext);
    let mut blob = nonce.clone();
    let mut tail = sealed.clone();
    blob.append(&mut tail);
    assert(blob@.take(NONCE_LEN as int) =~= nonce@);
    assert(blob@.skip(NONCE_LEN as int) =~= sealed@);
    blob
}

/// Opens a blob `nonce || ciphertext || tag` under `key`. A blob shorter than a
/// nonce, a wrong key and tampered data all give `Authentication`.
pub fn decrypt_secret(key: &[u8], blob: &[u8]) -> (r: Result<Vec<u8>, CryptoError>)
    requires
        key@.len() == KEY_LEN,
    ensures
        match open_blob(key@, blob@) {
            Some(p) => r matches Ok(v) && v@ == p,
            None => r == Err::<Vec<u8>, CryptoError>(CryptoError::Authentication),
        },
{
    if blob.len() < NONCE_LEN {
        return Err(CryptoError::Authentication);
    }
    let (nonce, sealed) = blob.split_at(NONCE_LEN);
    assert(nonce@ =~= blob@.take(NONCE_LEN as int));
    assert(sealed@ =~= blob@.skip(NONCE_LEN as int));
    match xchacha_decrypt(key, nonce, sealed) {
        Some(p) => Ok(p),
        None => Err(CryptoError::Authentication),
    }
}

} // verus!
