use aes_gcm::aead::{AeadInPlace, KeyInit};
use aes_gcm::{Aes256Gcm, Nonce};
use base64::Engine;
use otp_vault::{
    decode_migration_line, extract_file_contents, from_java_bytes, parse_freeotp_backup,
    parse_googleauth_backup, parse_new_token, DecodeError, EncryptedKey, EncryptedMasterKey,
    TokenAlgorithm, TokenInfo, TokenType,
};

const HELLO: &[u8] = b"Hello!\xde\xad\xbe\xef";

#[test]
fn plain_decoder_fixture() {
    let text = b"otpauth://totp/Issuer:label?secret=JBSWY3DPEHPK3PXP&issuer=Issuer&algorithm=SHA256&digits=8&period=60";
    let tokens = parse_new_token(text).unwrap();
    assert_eq!(tokens.len(), 1);
    let t = &tokens[0];
    assert_eq!(t.algorithm, TokenAlgorithm::Sha256);
    assert_eq!(t.digits, 8);
    assert_eq!(t.period, 60);
    assert_eq!(t.issuer, "Issuer");
    assert_eq!(t.label, "label");
    assert_eq!(t.token_type, TokenType::Totp);
    assert_eq!(t.counter, 0);
    assert_eq!(t.key, HELLO.to_vec());
}

#[test]
fn plain_decoder_defaults() {
    let tokens = parse_new_token(b"otpauth://totp/someone?secret=JBSWY3DPEHPK3PXP").unwrap();
    assert_eq!(tokens.len(), 1);
    assert_eq!(tokens[0].algorithm, TokenAlgorithm::Sha1);
    assert_eq!(tokens[0].digits, 6);
    assert_eq!(tokens[0].period, 30);
    assert_eq!(tokens[0].issuer, "");
    assert_eq!(tokens[0].label, "someone");
}

#[test]
fn plain_decoder_fixes_lower_case_algorithm() {
    let tokens =
        parse_new_token(b"otpauth://totp/A:b?secret=JBSWY3DPEHPK3PXP&algorithm=sha512").unwrap();
    assert_eq!(tokens[0].algorithm, TokenAlgorithm::Sha512);
}

#[test]
fn plain_decoder_reads_each_line() {
    let text = b"\n  otpauth://totp/A:one?secret=JBSWY3DPEHPK3PXP\r\n otpauth://totp/B:two?secret=JBSWY3DPEHPK3PXP&digits=8 \n\n";
    let tokens = parse_new_token(text).unwrap();
    assert_eq!(tokens.len(), 2);
    assert_eq!(tokens[0].issuer, "A");
    assert_eq!(tokens[0].label, "one");
    assert_eq!(tokens[1].issuer, "B");
    assert_eq!(tokens[1].digits, 8);
}

#[test]
fn plain_decoder_empty_text_gives_no_tokens() {
    assert_eq!(parse_new_token(b"  \n ").unwrap().len(), 0);
}

#[test]
fn plain_decoder_bad_line_is_parse_error() {
    let text = b"otpauth://totp/A:one?secret=JBSWY3DPEHPK3PXP\nnot a uri";
    assert_eq!(parse_new_token(text).unwrap_err(), DecodeError::Parse);
    let bad_alg = b"otpauth://totp/A:one?secret=JBSWY3DPEHPK3PXP&algorithm=MD5";
    assert_eq!(parse_new_token(bad_alg).unwrap_err(), DecodeError::Parse);
}

#[test]
fn plain_decoder_refuses_uri_without_totp_host() {
    assert_eq!(
        parse_new_token(b"otpauth:nohost?secret=JBSWY3DPEHPK3PXP").unwrap_err(),
        DecodeError::Parse
    );
    assert_eq!(
        parse_new_token(b"otpauth:///x?secret=JBSWY3DPEHPK3PXP").unwrap_err(),
        DecodeError::Parse
    );
    assert_eq!(
        parse_new_token(b"otpauth://hotp/A:b?secret=JBSWY3DPEHPK3PXP").unwrap_err(),
        DecodeError::Parse
    );
}

fn varint(mut v: u64, out: &mut Vec<u8>) {
    while v >= 0x80 {
        out.push((v as u8) | 0x80);
        v >>= 7;
    }
    out.push(v as u8);
}

fn len_field(number: u64, data: &[u8], out: &mut Vec<u8>) {
    varint(number << 3 | 2, out);
    varint(data.len() as u64, out);
    out.extend_from_slice(data);
}

fn int_field(number: u64, v: u64, out: &mut Vec<u8>) {
    varint(number << 3, out);
    varint(v, out);
}

fn otp_entry(secret: &[u8], name: &str, issuer: &str, alg: u64, digits: u64, kind: u64, counter: u64) -> Vec<u8> {
    let mut m = Vec::new();
    len_field(1, secret, &mut m);
    len_field(2, name.as_bytes(), &mut m);
    len_field(3, issuer.as_bytes(), &mut m);
    int_field(4, alg, &mut m);
    int_field(5, digits, &mut m);
    int_field(6, kind, &mut m);
    int_field(7, counter, &mut m);
    m
}

fn migration_uri(entries: &[Vec<u8>]) -> String {
    let mut batch = Vec::new();
    for e in entries {
        len_field(1, e, &mut batch);
    }
    int_field(2, 1, &mut batch);
    int_field(3, 1, &mut batch);
    int_field(4, 0, &mut batch);
    int_field(5, 123456, &mut batch);
    let b64 = base64::engine::general_purpose::STANDARD.encode(&batch);
    format!("otpauth-migration://offline?data={}", urlencoding::encode(&b64))
}

#[test]
fn migration_decoder_fixture() {
    let uri = migration_uri(&[
        otp_entry(HELLO, "alice@example.com", "Example", 1, 1, 2, 0),
        otp_entry(b"\x00\x01\x02\x03\xff", "bob", "Other", 3, 2, 1, 42),
    ]);
    let tokens = parse_googleauth_backup(uri.as_bytes()).unwrap();
    assert_eq!(tokens.len(), 2);
    assert_eq!(tokens[0].key, HELLO.to_vec());
    assert_eq!(tokens[0].label, "alice@example.com");
    assert_eq!(tokens[0].issuer, "Example");
    assert_eq!(tokens[0].algorithm, TokenAlgorithm::Sha1);
    assert_eq!(tokens[0].digits, 6);
    assert_eq!(tokens[0].token_type, TokenType::Totp);
    assert_eq!(tokens[0].period, 30);
    assert_eq!(tokens[1].key, vec![0u8, 1, 2, 3, 255]);
    assert_eq!(tokens[1].label, "bob");
    assert_eq!(tokens[1].issuer, "Other");
    assert_eq!(tokens[1].algorithm, TokenAlgorithm::Sha512);
    assert_eq!(tokens[1].digits, 8);
    assert_eq!(tokens[1].token_type, TokenType::Hotp);
    assert_eq!(tokens[1].counter, 42);
    assert_eq!(tokens[1].period, 30);
}

#[test]
fn migration_lines_concatenate_in_order() {
    let a = migration_uri(&[otp_entry(b"a", "one", "I", 2, 1, 2, 0)]);
    let b = migration_uri(&[otp_entry(b"b", "two", "J", 1, 2, 2, 0)]);
    let text = format!("{}\n{}\n", a, b);
    let tokens = parse_googleauth_backup(text.as_bytes()).unwrap();
    assert_eq!(tokens.len(), 2);
    assert_eq!(tokens[0].label, "one");
    assert_eq!(tokens[0].algorithm, TokenAlgorithm::Sha256);
    assert_eq!(tokens[1].label, "two");
    assert_eq!(tokens[1].digits, 8);
}

#[test]
fn migration_unknown_enum_is_unsupported() {
    let unset = migration_uri(&[otp_entry(b"a", "one", "I", 0, 1, 2, 0)]);
    assert_eq!(decode_migration_line(unset.as_bytes()).unwrap_err(), DecodeError::UnsupportedValue);
    let md5 = migration_uri(&[otp_entry(b"a", "one", "I", 4, 1, 2, 0)]);
    assert_eq!(decode_migration_line(md5.as_bytes()).unwrap_err(), DecodeError::UnsupportedValue);
    let digits = migration_uri(&[otp_entry(b"a", "one", "I", 1, 0, 2, 0)]);
    assert_eq!(decode_migration_line(digits.as_bytes()).unwrap_err(), DecodeError::UnsupportedValue);
    let kind = migration_uri(&[otp_entry(b"a", "one", "I", 1, 1, 3, 0)]);
    assert_eq!(decode_migration_line(kind.as_bytes()).unwrap_err(), DecodeError::UnsupportedValue);
}

#[test]
fn migration_malformed_is_format_error() {
    let bad_b64 = b"otpauth-migration://offline?data=!!!";
    assert_eq!(parse_googleauth_backup(bad_b64).unwrap_err(), DecodeError::Format);
    let truncated = base64::engine::general_purpose::STANDARD.encode([0x0a, 0x05, 0x01]);
    let uri = format!("otpauth-migration://offline?data={}", urlencoding::encode(&truncated));
    assert_eq!(parse_googleauth_backup(uri.as_bytes()).unwrap_err(), DecodeError::Format);
}

#[test]
fn java_bytes_are_reinterpreted() {
    assert_eq!(from_java_bytes(&[-1, 0, 127, -128, -34]), vec![255u8, 0, 127, 128, 222]);
}

fn java_string(s: &str, out: &mut Vec<u8>) {
    out.push(0x74);
    out.extend_from_slice(&(s.len() as u16).to_be_bytes());
    out.extend_from_slice(s.as_bytes());
}

fn java_hash_map(entries: &[(&str, &str)]) -> Vec<u8> {
    let mut b = vec![0xac, 0xed, 0x00, 0x05, 0x73, 0x72];
    let name = "java.util.HashMap";
    b.extend_from_slice(&(name.len() as u16).to_be_bytes());
    b.extend_from_slice(name.as_bytes());
    b.extend_from_slice(&[0x05, 0x07, 0xda, 0xc1, 0xc3, 0x16, 0x60, 0xd1]);
    b.push(0x03);
    b.extend_from_slice(&[0x00, 0x02]);
    b.push(b'F');
    b.extend_from_slice(&[0x00, 0x0a]);
    b.extend_from_slice(b"loadFactor");
    b.push(b'I');
    b.extend_from_slice(&[0x00, 0x09]);
    b.extend_from_slice(b"threshold");
    b.extend_from_slice(&[0x78, 0x70]);
    b.extend_from_slice(&[0x3f, 0x40, 0x00, 0x00]);
    b.extend_from_slice(&[0x00, 0x00, 0x00, 0x0c]);
    b.extend_from_slice(&[0x77, 0x08, 0x00, 0x00, 0x00, 0x10]);
    b.extend_from_slice(&(entries.len() as u32).to_be_bytes());
    for (k, v) in entries {
        java_string(k, &mut b);
        java_string(v, &mut b);
    }
    b.push(0x78);
    b
}

#[test]
fn legacy_stream_layout() {
    let bytes = java_hash_map(&[
        ("uuid-1-token", "{\"label\":\"one\"}"),
        ("masterKey", "{\"mIterations\":1}"),
        ("uuid-1", "{\"key\":\"k1\"}"),
        ("uuid-2", "{\"key\":\"k2\"}"),
        ("uuid-2-token", "{\"label\":\"two\"}"),
    ]);
    let layout = extract_file_contents(&bytes).unwrap();
    assert_eq!(layout.master_key, b"{\"mIterations\":1}".to_vec());
    assert_eq!(layout.tokens.len(), 2);
    assert_eq!(layout.tokens[0], (b"{\"key\":\"k1\"}".to_vec(), b"{\"label\":\"one\"}".to_vec()));
    assert_eq!(layout.tokens[1], (b"{\"key\":\"k2\"}".to_vec(), b"{\"label\":\"two\"}".to_vec()));
}

#[test]
fn legacy_stream_missing_parts_are_format_errors() {
    let no_master = java_hash_map(&[("uuid-1", "{}"), ("uuid-1-token", "{}")]);
    assert_eq!(extract_file_contents(&no_master).unwrap_err(), DecodeError::Format);
    let no_companion = java_hash_map(&[("masterKey", "{}"), ("uuid-1", "{}")]);
    assert_eq!(extract_file_contents(&no_companion).unwrap_err(), DecodeError::Format);
    let mut trailing = java_hash_map(&[("masterKey", "{}")]);
    trailing.push(0);
    assert_eq!(extract_file_contents(&trailing).unwrap_err(), DecodeError::Format);
    let mut bad_magic = java_hash_map(&[("masterKey", "{}")]);
    bad_magic[0] = 0;
    assert_eq!(extract_file_contents(&bad_magic).unwrap_err(), DecodeError::Format);
    let duplicate = java_hash_map(&[("masterKey", "{}"), ("masterKey", "{}")]);
    assert_eq!(extract_file_contents(&duplicate).unwrap_err(), DecodeError::Format);
}

fn signed(b: &[u8]) -> Vec<i8> {
    b.iter().map(|x| *x as i8).collect()
}

fn wrap(key: &[u8], iv: &[u8; 12], aad: &str, plain: &[u8]) -> EncryptedKey {
    let cipher = Aes256Gcm::new_from_slice(key).unwrap();
    let mut buf = plain.to_vec();
    cipher.encrypt_in_place(Nonce::from_slice(iv), aad.as_bytes(), &mut buf).unwrap();
    let mut params = vec![0x30u8, 0x11, 0x04, 0x0c];
    params.extend_from_slice(iv);
    params.extend_from_slice(&[0x02, 0x01, 0x10]);
    EncryptedKey {
        m_cipher: "AES/GCM/NoPadding".to_string(),
        m_cipher_text: signed(&buf),
        m_parameters: signed(&params),
        m_token: aad.to_string(),
    }
}

fn info(algo: Option<&str>, kind: &str, label: &str, issuer: &str, digits: u32, period: u64, counter: u32) -> TokenInfo {
    TokenInfo {
        algo: algo.map(|a| a.to_string()),
        counter,
        digits,
        issuer_ext: issuer.to_string(),
        issuer_int: issuer.to_string(),
        label: label.to_string(),
        period,
        token_type: kind.to_string(),
    }
}

fn legacy_fixture() -> (EncryptedMasterKey, Vec<(EncryptedKey, TokenInfo)>) {
    let master_key: Vec<u8> = (0u8..32).map(|i| i.wrapping_mul(7).wrapping_add(3)).collect();
    let salt: Vec<u8> = (0u8..32).map(|i| 200u8.wrapping_sub(i)).collect();
    let iterations = 1000;
    let pw_key = pbkdf2::pbkdf2_hmac_array::<sha2::Sha512, 32>(b"backup-pass", &salt, iterations);
    let master = EncryptedMasterKey {
        m_algorithm: "PBKDF2withHmacSHA512".to_string(),
        m_encrypted_key: wrap(&pw_key, &[1; 12], "AES", &master_key),
        m_iterations: iterations,
        m_salt: signed(&salt),
    };
    let entries = vec![
        (
            wrap(&master_key, &[2; 12], "HmacSHA1", HELLO),
            info(None, "TOTP", "alice", "Example", 6, 30, 0),
        ),
        (
            wrap(&master_key, &[3; 12], "HmacSHA256", b"\x80\x81\x82"),
            info(Some("SHA256"), "HOTP", "bob", "Other", 8, 60, 5),
        ),
    ];
    (master, entries)
}

#[test]
fn legacy_export_fixture() {
    let (master, entries) = legacy_fixture();
    let tokens = parse_freeotp_backup(&master, &entries, b"backup-pass").unwrap();
    assert_eq!(tokens.len(), 2);
    assert_eq!(tokens[0].label, "alice");
    assert_eq!(tokens[0].issuer, "Example");
    assert_eq!(tokens[0].algorithm, TokenAlgorithm::Sha1);
    assert_eq!(tokens[0].digits, 6);
    assert_eq!(tokens[0].period, 30);
    assert_eq!(tokens[0].counter, 0);
    assert_eq!(tokens[0].token_type, TokenType::Totp);
    assert_eq!(tokens[0].key, HELLO.to_vec());
    assert_eq!(tokens[1].label, "bob");
    assert_eq!(tokens[1].issuer, "Other");
    assert_eq!(tokens[1].algorithm, TokenAlgorithm::Sha256);
    assert_eq!(tokens[1].digits, 8);
    assert_eq!(tokens[1].period, 60);
    assert_eq!(tokens[1].counter, 5);
    assert_eq!(tokens[1].token_type, TokenType::Hotp);
    assert_eq!(tokens[1].key, vec![0x80u8, 0x81, 0x82]);
}

#[test]
fn legacy_export_wrong_password_is_authentication() {
    let (master, entries) = legacy_fixture();
    assert_eq!(
        parse_freeotp_backup(&master, &entries, b"wrong").unwrap_err(),
        DecodeError::Authentication
    );
}

#[test]
fn legacy_export_unknown_algorithm_is_unsupported() {
    let (master, mut entries) = legacy_fixture();
    entries[1].1.algo = Some("MD5".to_string());
    assert_eq!(
        parse_freeotp_backup(&master, &entries, b"backup-pass").unwrap_err(),
        DecodeError::UnsupportedValue
    );
    let (master, mut entries) = legacy_fixture();
    entries[0].1.token_type = "STEAM".to_string();
    assert_eq!(
        parse_freeotp_backup(&master, &entries, b"backup-pass").unwrap_err(),
        DecodeError::UnsupportedValue
    );
}

#[test]
fn legacy_export_short_parameters_are_format_errors() {
    let (mut master, entries) = legacy_fixture();
    master.m_encrypted_key.m_parameters.truncate(10);
    assert_eq!(
        parse_freeotp_backup(&master, &entries, b"backup-pass").unwrap_err(),
        DecodeError::Format
    );
}
