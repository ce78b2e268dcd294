use otp_vault::{decrypt_secret, derive_key, encrypt_secret, CryptoError};

fn key_for(password: &[u8]) -> Vec<u8> {
    derive_key(password, &[7u8; 32]).unwrap()
}

#[test]
fn round_trip_returns_plaintext() {
    let key = key_for(b"correct horse");
    let secret = b"Hello!\xde\xad\xbe\xef".to_vec();
    let blob = encrypt_secret(&key, &secret);
    assert_eq!(decrypt_secret(&key, &blob), Ok(secret));
}

#[test]
fn round_trip_of_empty_plaintext() {
    let key = key_for(b"correct horse");
    let blob = encrypt_secret(&key, &[]);
    assert_eq!(blob.len(), 24 + 16);
    assert_eq!(decrypt_secret(&key, &blob), Ok(Vec::new()));
}

#[test]
fn blob_is_nonce_ciphertext_and_tag() {
    let key = key_for(b"pw");
    let secret = vec![1u8, 2, 3, 4, 5];
    let blob = encrypt_secret(&key, &secret);
    assert_eq!(blob.len(), 24 + secret.len() + 16);
    assert_ne!(&blob[24..29], &secret[..]);
}

#[test]
fn nonces_are_fresh() {
    let key = key_for(b"pw");
    let a = encrypt_secret(&key, b"same");
    let b = encrypt_secret(&key, b"same");
    assert_ne!(a[..24], b[..24]);
    assert_eq!(decrypt_secret(&key, &a), decrypt_secret(&key, &b));
}

#[test]
fn wrong_key_is_authentication_error() {
    let k1 = key_for(b"right");
    let k2 = key_for(b"wrong");
    assert_ne!(k1, k2);
    let blob = encrypt_secret(&k1, b"secret");
    assert_eq!(decrypt_secret(&k2, &blob), Err(CryptoError::Authentication));
}

#[test]
fn tampered_blob_is_authentication_error() {
    let key = key_for(b"pw");
    let mut blob = encrypt_secret(&key, b"secret");
    let last = blob.len() - 1;
    blob[last] ^= 1;
    assert_eq!(decrypt_secret(&key, &blob), Err(CryptoError::Authentication));
}

#[test]
fn short_blob_is_authentication_error() {
    let key = key_for(b"pw");
    assert_eq!(decrypt_secret(&key, &[0u8; 10]), Err(CryptoError::Authentication));
    assert_eq!(decrypt_secret(&key, &[0u8; 24]), Err(CryptoError::Authentication));
}

#[test]
fn key_derivation_is_deterministic() {
    let a = derive_key(b"pw", &[1u8; 32]).unwrap();
    let b = derive_key(b"pw", &[1u8; 32]).unwrap();
    let c = derive_key(b"pw", &[2u8; 32]).unwrap();
    assert_eq!(a.len(), 32);
    assert_eq!(a, b);
    assert_ne!(a, c);
}

#[test]
fn short_salt_is_key_derivation_error() {
    assert_eq!(derive_key(b"pw", &[1u8; 7]), Err(CryptoError::KeyDerivation));
    assert!(derive_key(b"pw", &[1u8; 8]).is_ok());
}
