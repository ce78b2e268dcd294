use otp_vault::{
    add_token, decrypt_secret, derive_key, AddError, KeyFile, StoreError, Token, TokenAlgorithm,
    TokenType, UseError,
};

fn token(issuer: &str, label: &str, secret: &[u8], digits: u32) -> Token {
    Token {
        algorithm: TokenAlgorithm::Sha1,
        counter: 0,
        digits,
        issuer: issuer.to_string(),
        label: label.to_string(),
        period: 30,
        token_type: TokenType::Totp,
        key: secret.to_vec(),
    }
}

fn salt() -> Vec<u8> {
    vec![9u8; 32]
}

#[test]
fn new_store_is_empty() {
    let store = KeyFile::new(salt());
    assert_eq!(store.master_key_salt, salt());
    assert!(store.tokens.is_empty());
}

#[test]
fn created_store_has_random_salt() {
    let a = KeyFile::create();
    let b = KeyFile::create();
    assert_eq!(a.master_key_salt.len(), 32);
    assert_ne!(a.master_key_salt, b.master_key_salt);
    assert!(a.tokens.is_empty());
}

#[test]
fn import_names_entries_issuer_dash_label() {
    let mut store = KeyFile::new(salt());
    store
        .import_tokens(&vec![token("GitHub", "me@example.com", b"abc", 6)], b"pw")
        .unwrap();
    assert_eq!(store.tokens.len(), 1);
    assert_eq!(store.tokens[0].0, "GitHub-me@example.com");
    let stored = &store.tokens[0].1;
    assert_eq!(stored.key.len(), 24 + 3 + 16);
    let key = derive_key(b"pw", &salt()).unwrap();
    assert_eq!(decrypt_secret(&key, &stored.key), Ok(b"abc".to_vec()));
}

#[test]
fn name_collision_keeps_second_token() {
    let mut store = KeyFile::new(salt());
    let first = token("Acme", "bob", b"first-secret", 6);
    let second = token("Acme", "bob", b"second-secret", 8);
    store.import_tokens(&vec![first, second], b"pw").unwrap();
    assert_eq!(store.tokens.len(), 1);
    assert_eq!(store.tokens[0].0, "Acme-bob");
    assert_eq!(store.tokens[0].1.digits, 8);
    let revealed = store.reveal_secret(&"Acme-bob".to_string(), b"pw");
    assert_eq!(revealed, Ok(b"second-secret".to_vec()));
}

#[test]
fn import_keeps_other_entries() {
    let mut store = KeyFile::new(salt());
    store.import_tokens(&vec![token("A", "x", b"one", 6)], b"pw").unwrap();
    store
        .import_tokens(&vec![token("B", "y", b"two", 6), token("A", "x", b"three", 6)], b"pw")
        .unwrap();
    assert_eq!(store.tokens.len(), 2);
    assert_eq!(store.reveal_secret(&"A-x".to_string(), b"pw"), Ok(b"three".to_vec()));
    assert_eq!(store.reveal_secret(&"B-y".to_string(), b"pw"), Ok(b"two".to_vec()));
}

#[test]
fn import_with_bad_salt_leaves_store() {
    let mut store = KeyFile::new(vec![1u8; 4]);
    let r = store.import_tokens(&vec![token("A", "x", b"one", 6)], b"pw");
    assert_eq!(r, Err(otp_vault::CryptoError::KeyDerivation));
    assert!(store.tokens.is_empty());
}

#[test]
fn insert_replaces_by_name() {
    let mut store = KeyFile::new(salt());
    store.insert("n".to_string(), token("a", "b", b"1", 6));
    store.insert("m".to_string(), token("c", "d", b"2", 6));
    store.insert("n".to_string(), token("e", "f", b"3", 8));
    assert_eq!(store.tokens.len(), 2);
    let got = store.get(&"n".to_string()).unwrap();
    assert_eq!(got.issuer, "e");
    assert_eq!(got.digits, 8);
    assert!(store.get(&"zz".to_string()).is_none());
}

#[test]
fn reveal_missing_is_not_found() {
    let store = KeyFile::new(salt());
    assert_eq!(store.reveal_secret(&"x".to_string(), b"pw"), Err(StoreError::NotFound));
}

#[test]
fn reveal_with_wrong_passphrase_is_authentication() {
    let mut store = KeyFile::new(salt());
    store.import_tokens(&vec![token("A", "x", b"one", 6)], b"pw").unwrap();
    assert_eq!(
        store.reveal_secret(&"A-x".to_string(), b"other"),
        Err(StoreError::Authentication)
    );
}

#[test]
fn add_token_from_url() {
    let mut store = KeyFile::new(salt());
    let url = b"  otpauth://totp/Issuer:label?secret=JBSWY3DPEHPK3PXP&issuer=Issuer&algorithm=sha256&digits=8&period=60\n";
    add_token(&mut store, "mine".to_string(), url, b"pw").unwrap();
    let t = store.use_token(&"mine".to_string(), b"pw").unwrap();
    assert_eq!(t.key, b"Hello!\xde\xad\xbe\xef".to_vec());
    assert_eq!(t.algorithm, TokenAlgorithm::Sha256);
    assert_eq!(t.digits, 8);
    assert_eq!(t.period, 60);
    assert_eq!(t.issuer, "Issuer");
    assert_eq!(t.label, "label");
}

#[test]
fn add_token_with_bad_url_is_parse_error() {
    let mut store = KeyFile::new(salt());
    let r = add_token(&mut store, "x".to_string(), b"https://example.com/", b"pw");
    assert_eq!(r, Err(AddError::Parse));
    assert!(store.tokens.is_empty());
}

#[test]
fn use_token_refuses_hotp() {
    let mut store = KeyFile::new(salt());
    let mut t = token("A", "x", b"one", 6);
    t.token_type = TokenType::Hotp;
    store.import_tokens(&vec![t], b"pw").unwrap();
    assert_eq!(store.use_token(&"A-x".to_string(), b"pw").unwrap_err(), UseError::UnsupportedType);
    assert_eq!(store.unlock_all(b"pw").unwrap_err(), UseError::UnsupportedType);
}

#[test]
fn unlock_all_opens_every_token() {
    let mut store = KeyFile::new(salt());
    store
        .import_tokens(&vec![token("A", "x", b"one", 6), token("B", "y", b"two", 8)], b"pw")
        .unwrap();
    let all = store.unlock_all(b"pw").unwrap();
    assert_eq!(all.len(), 2);
    assert_eq!(all[0].0, "A-x");
    assert_eq!(all[0].1.key, b"one".to_vec());
    assert_eq!(all[1].0, "B-y");
    assert_eq!(all[1].1.key, b"two".to_vec());
    assert_eq!(store.unlock_all(b"bad").unwrap_err(), UseError::Authentication);
}
