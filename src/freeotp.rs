//! FreeOTP exports: a map whose `masterKey` entry holds a master key wrapped
//! under a password-derived key, and whose other entries hold token secrets
//! wrapped under the master key, each with a `-token` companion of metadata.
use vstd::prelude::*;

use aes_gcm::aead::{AeadInPlace, KeyInit};
use aes_gcm::{Aes256Gcm, Nonce};

use vstd::utf8::encode_utf8;

use crate::java_stream::{entry_models, java_map, read_java_map};
use crate::text::{bytes_equal, copy_range};
use crate::types::{DecodeError, Token, TokenAlgorithm, TokenModel, TokenType};

verus! {

/// PBKDF2-HMAC-SHA512 of a password under a salt, 32 bytes.
pub uninterp spec fn pbkdf2_sha512(password: Seq<u8>, salt: Seq<u8>, rounds: u32) -> Seq<u8>;

/// AES-256-GCM opening of a ciphertext with its tag under associated data;
/// `None` where the tag does not verify.
pub uninterp spec fn aes_gcm_open(key: Seq<u8>, nonce: Seq<u8>, aad: Seq<u8>, sealed: Seq<u8>) -> Option<
    Seq<u8>,
>;

/// Relies on pbkdf2's `pbkdf2_hmac_array::<Sha512, 32>`: PBKDF2 with
/// HMAC-SHA512, 32 bytes of output.
#[verifier::external_body]
fn pbkdf2_key(password: &[u8], salt: &[u8], rounds: u32) -> (r: Vec<u8>)
    ensures
        r@ == pbkdf2_sha512(password@, salt@, rounds),
        r@.len() == 32,
{
    pbkdf2::pbkdf2_hmac_array::<sha2::Sha512, 32>(password, salt, rounds).to_vec()
}

/// Relies on aes_gcm's `Aes256Gcm` (`KeyInit::new`, `AeadInPlace::decrypt_in_place`):
/// the plaintext where the tag verifies, nothing otherwise.
#[verifier::external_body]
fn aes256gcm_decrypt(key: &[u8], nonce: &[u8], aad: &[u8], sealed: &[u8]) -> (r: Option<Vec<u8>>)
    requires
        key@.len() == 32,
        nonce@.len() == 12,
    ensures
        match aes_gcm_open(key@, nonce@, aad@, sealed@) {
            Some(p) => r matches Some(v) && v@ == p,
            None => r is None,
        },
{
    let cipher = Aes256Gcm::new(aes_gcm::Key::<Aes256Gcm>::from_slice(key));
    let mut buf = sealed.to_vec();
    cipher.decrypt_in_place(Nonce::from_slice(nonce), aad, &mut buf).ok()?;
    Some(buf)
}

/// A key wrapped with AES-256-GCM, as the export's JSON holds it: signed
/// bytes of ciphertext and of serialized cipher parameters (the 12-byte IV at
/// offset 4), and a token string that is the associated data.
#[derive(Clone, Debug)]
pub struct EncryptedKey {
    pub m_cipher: String,
    pub m_cipher_text: Vec<i8>,
    pub m_parameters: Vec<i8>,
    pub m_token: String,
}

/// The master key, wrapped under a key derived from the backup password.
#[derive(Clone, Debug)]
pub struct EncryptedMasterKey {
    pub m_algorithm: String,
    pub m_encrypted_key: EncryptedKey,
    pub m_iterations: u32,
    pub m_salt: Vec<i8>,
}

/// The metadata of one token.
#[derive(Clone, Debug)]
pub struct TokenInfo {
    pub algo: Option<String>,
    pub counter: u32,
    pub digits: u32,
    pub issuer_ext: String,
    pub issuer_int: String,
    pub label: String,
    pub period: u64,
    pub token_type: String,
}

/// The JSON texts of an export, paired: the wrapped master key, and for each
/// token its wrapped key and its metadata.
#[derive(Clone, Debug)]
pub struct FreeOtpLayout {
    pub master_key: Vec<u8>,
    pub tokens: Vec<(Vec<u8>, Vec<u8>)>,
}

/// Signed bytes read as the unsigned bytes of the same bits.
pub open spec fn java_bytes(s: Seq<i8>) -> Seq<u8> {
    s.map_values(|b: i8| b as u8)
}

/// Digits of a token whose metadata names none.
pub fn default_token_digits() -> (r: u32)
    ensures
        r == 6,
{
    6
}

/// Period of a token whose metadata names none.
pub fn default_token_period() -> (r: u64)
    ensures
        r == 30,
{
    30
}

/// Signed bytes read as the unsigned bytes of the same bits.
pub fn from_java_bytes(bytes: &[i8]) -> (r: Vec<u8>)
    ensures
        r@ == java_bytes(bytes@),
{
    let mut r: Vec<u8> = Vec::new();
    let mut i: usize = 0;
    while i < bytes.len()
        invariant
            i <= bytes@.len(),
            r@ == java_bytes(bytes@.take(i as int)),
        decreases bytes@.len() - i,
    {
        r.push(bytes[i] as u8);
        i += 1;
        assert(r@ =~= java_bytes(bytes@.take(i as int)));
    }
    assert(bytes@.take(i as int) =~= bytes@);
    r
}

/// The IV of a wrapped key: bytes 4 to 16 of its parameters.
pub open spec fn iv_of(k: EncryptedKey) -> Seq<u8> {
    java_bytes(k.m_parameters@).subrange(4, 16)
}

/// What unwrapping `k` under `key` gives: the secret, `Format` where the key is
/// not 32 bytes or the parameters hold no IV, `Authentication` where the tag
/// does not verify.
pub open spec fn unwrap_result(key: Seq<u8>, k: EncryptedKey) -> Result<Seq<u8>, DecodeError> {
    if key.len() != 32 || k.m_parameters@.len() < 16 {
        Err(DecodeError::Format)
    } else {
        match aes_gcm_open(key, iv_of(k), encode_utf8(k.m_token@), java_bytes(k.m_cipher_text@)) {
            Some(s) => Ok(s),
            None => Err(DecodeError::Authentication),
        }
    }
}

/// The master key of an export under a backup password.
pub open spec fn master_key_result(m: EncryptedMasterKey, password: Seq<u8>) -> Result<
    Seq<u8>,
    DecodeError,
> {
    unwrap_result(pbkdf2_sha512(password, java_bytes(m.m_salt@), m.m_iterations), m.m_encrypted_key)
}

fn unwrap_key(key: &[u8], k: &EncryptedKey) -> (r: Result<Vec<u8>, DecodeError>)
    ensures
        match unwrap_result(key@, *k) {
            Ok(s) => r matches Ok(v) && v@ == s,
            Err(e) => r == Err::<Vec<u8>, DecodeError>(e),
        },
{
    if key.len() != 32 || k.m_parameters.len() < 16 {
        return Err(DecodeError::Format);
    }
    let params = from_java_bytes(k.m_parameters.as_slice());
    let (head, _) = params.as_slice().split_at(16);
    let (_, iv) = head.split_at(4);
    assert(iv@ =~= iv_of(*k));
    let sealed = from_java_bytes(k.m_cipher_text.as_slice());
    match aes256gcm_decrypt(key, iv, k.m_token.as_str().as_bytes(), sealed.as_slice()) {
        Some(s) => Ok(s),
        None => Err(DecodeError::Authentication),
    }
}

/// Unwraps the master key: PBKDF2-HMAC-SHA512 of the password over the salt and
/// iteration count gives the key that opens it.
pub fn decrypt_master_key(m: &EncryptedMasterKey, password: &[u8]) -> (r: Result<Vec<u8>, DecodeError>)
    ensures
        match master_key_result(*m, password@) {
            Ok(s) => r matches Ok(v) && v@ == s,
            Err(e) => r == Err::<Vec<u8>, DecodeError>(e),
        },
{
    let salt = from_java_bytes(m.m_salt.as_slice());
    let key = pbkdf2_key(password, salt.as_slice(), m.m_iterations);
    unwrap_key(key.as_slice(), &m.m_encrypted_key)
}

/// Unwraps a token's secret directly under the master key.
pub fn decrypt_token_key(k: &EncryptedKey, master_key: &[u8]) -> (r: Result<Vec<u8>, DecodeError>)
    ensures
        match unwrap_result(master_key@, *k) {
            Ok(s) => r matches Ok(v) && v@ == s,
            Err(e) => r == Err::<Vec<u8>, DecodeError>(e),
        },
{
    unwrap_key(master_key, k)
}

/// The algorithm that metadata names; SHA1 where it names none.
pub open spec fn algorithm_named(a: Option<Seq<char>>) -> Option<TokenAlgorithm> {
    match a {
        None => Some(TokenAlgorithm::Sha1),
        Some(s) => if s == "SHA1"@ {
            Some(TokenAlgorithm::Sha1)
        } else if s == "SHA256"@ {
            Some(TokenAlgorithm::Sha256)
        } else if s == "SHA512"@ {
            Some(TokenAlgorithm::Sha512)
        } else {
            None
        },
    }
}

/// The token type that metadata names.
pub open spec fn type_named(s: Seq<char>) -> Option<TokenType> {
    if s == "HOTP"@ {
        Some(TokenType::Hotp)
    } else if s == "TOTP"@ {
        Some(TokenType::Totp)
    } else {
        None
    }
}

/// The token of one export entry, given the master key: its secret unwrapped,
/// then its algorithm and type read from the metadata.
pub open spec fn entry_token(master: Seq<u8>, k: EncryptedKey, info: TokenInfo) -> Result<
    TokenModel,
    DecodeError,
> {
    match unwrap_result(master, k) {
        Err(e) => Err(e),
        Ok(secret) => match algorithm_named(
            match info.algo {
                Some(a) => Some(a@),
                None => None,
            },
        ) {
            None => Err(DecodeError::UnsupportedValue),
            Some(algorithm) => match type_named(info.token_type@) {
                None => Err(DecodeError::UnsupportedValue),
                Some(token_type) => Ok(
                    TokenModel {
                        algorithm,
                        counter: info.counter,
                        digits: info.digits,
                        issuer: info.issuer_ext@,
                        label: info.label@,
                        period: info.period,
                        token_type,
                        key: secret,
                    },
                ),
            },
        },
    }
}

fn algorithm_of(a: &Option<String>) -> (r: Option<TokenAlgorithm>)
    ensures
        r == algorithm_named(
            match a {
                Some(s) => Some(s@),
                None => None,
            },
        ),
{
    match a {
        None => Some(TokenAlgorithm::Sha1),
        Some(s) => {
            let sha1 = String::from_str("SHA1");
            let sha256 = String::from_str("SHA256");
            let sha512 = String::from_str("SHA512");
            if *s == sha1 {
                Some(TokenAlgorithm::Sha1)
            } else if *s == sha256 {
                Some(TokenAlgorithm::Sha256)
            } else if *s == sha512 {
                Some(TokenAlgorithm::Sha512)
            } else {
                None
            }
        },
    }
}

fn type_of(s: &String) -> (r: Option<TokenType>)
    ensures
        r == type_named(s@),
{
    let hotp = String::from_str("HOTP");
    let totp = String::from_str("TOTP");
    if *s == hotp {
        Some(TokenType::Hotp)
    } else if *s == totp {
        Some(TokenType::Totp)
    } else {
        None
    }
}

/// The token of one export entry, given the master key.
pub fn decode_entry(master_key: &[u8], k: &EncryptedKey, info: &TokenInfo) -> (r: Result<Token, DecodeError>)
    ensures
        match entry_token(master_key@, *k, *info) {
            Ok(t) => r matches Ok(v) && v@ == t,
            Err(e) => r == Err::<Token, DecodeError>(e),
        },
{
    let secret = match decrypt_token_key(k, master_key) {
        Ok(s) => s,
        Err(e) => return Err(e),
    };
    let algorithm = match algorithm_of(&info.algo) {
        Some(a) => a,
        None => return Err(DecodeError::UnsupportedValue),
    };
    let token_type = match type_of(&info.token_type) {
        Some(t) => t,
        None => return Err(DecodeError::UnsupportedValue),
    };
    Ok(Token {
        algorithm,
        counter: info.counter,
        digits: info.digits,
        issuer: info.issuer_ext.clone(),
        label: info.label.clone(),
        period: info.period,
        token_type,
        key: secret,
    })
}

/// Decodes the tokens of an export: the master key is unwrapped with the
/// backup password, then each entry in order; the first failure is returned.
pub fn parse_freeotp_backup(
    master: &EncryptedMasterKey,
    entries: &Vec<(EncryptedKey, TokenInfo)>,
    password: &[u8],
) -> (r: Result<Vec<Token>, DecodeError>)
    ensures
        match master_key_result(*master, password@) {
            Err(e) => r == Err::<Vec<Token>, DecodeError>(e),
            Ok(mk) => {
                &&& r is Ok <==> forall|i: int| 0 <= i < entries@.len() ==> (#[trigger] entry_token(
                    mk,
                    entries@[i].0,
                    entries@[i].1,
                )) is Ok
                &&& r matches Ok(v) ==> v@.len() == entries@.len() && forall|i: int|
                    0 <= i < v@.len() ==> Ok::<TokenModel, DecodeError>((#[trigger] v@[i])@) == entry_token(
                        mk,
                        entries@[i].0,
                        entries@[i].1,
                    )
                &&& r matches Err(e) ==> exists|i: int| 0 <= i < entries@.len() && (forall|j: int|
                    0 <= j < i ==> (#[trigger] entry_token(mk, entries@[j].0, entries@[j].1)) is Ok)
                    && entry_token(mk, entries@[i].0, entries@[i].1) == Err::<TokenModel, DecodeError>(e)
            },
        },
{
    let mk = match decrypt_master_key(master, password) {
        Ok(k) => k,
        Err(e) => return Err(e),
    };
    let mut out: Vec<Token> = Vec::new();
    let mut i: usize = 0;
    while i < entries.len()
        invariant
            i <= entries@.len(),
            master_key_result(*master, password@) == Ok::<Seq<u8>, DecodeError>(mk@),
            out@.len() == i,
            forall|k: int| 0 <= k < i ==> Ok::<TokenModel, DecodeError>((#[trigger] out@[k])@) == entry_token(mk@, entries@[k].0, entries@[k].1),
        decreases entries@.len() - i,
    {
        match decode_entry(mk.as_slice(), &entries[i].0, &entries[i].1) {
            Ok(t) => out.push(t),
            Err(e) => {
                assert forall|j: int| 0 <= j < i implies (#[trigger] entry_token(mk@, entries@[j].0, entries@[j].1)) is Ok by {
                    assert(Ok::<TokenModel, DecodeError>(out@[j]@) == entry_token(mk@, entries@[j].0, entries@[j].1));
                }
                return Err(e);
            },
        }
        i += 1;
    }
    assert forall|k: int| 0 <= k < entries@.len() implies (#[trigger] entry_token(mk@, entries@[k].0, entries@[k].1)) is Ok by {
        assert(Ok::<TokenModel, DecodeError>(out@[k]@) == entry_token(mk@, entries@[k].0, entries@[k].1));
    }
    Ok(out)
}

/// `masterKey`, the entry of the wrapped master key.
pub open spec fn master_key_name() -> Seq<u8> {
    seq![109u8, 97, 115, 116, 101, 114, 75, 101, 121]
}

/// `-token`, the suffix of the metadata entries.
pub open spec fn token_suffix() -> Seq<u8> {
    seq![45u8, 116, 111, 107, 101, 110]
}

/// Whether `s` ends with `suffix`.
pub open spec fn ends_with(s: Seq<u8>, suffix: Seq<u8>) -> bool {
    s.len() >= suffix.len() && s.skip(s.len() - suffix.len()) == suffix
}

/// The value of the first entry with key `k`.
pub open spec fn lookup(es: Seq<(Seq<u8>, Seq<u8>)>, k: Seq<u8>) -> Option<Seq<u8>>
    decreases es.len(),
{
    if es.len() == 0 {
        None
    } else if es[0].0 == k {
        Some(es[0].1)
    } else {
        lookup(es.drop_first(), k)
    }
}

/// For each entry of `es` that is neither the master key nor metadata, in
/// order: its value and the value of its `-token` companion in `all`; `None`
/// where a companion is missing.
pub open spec fn paired(all: Seq<(Seq<u8>, Seq<u8>)>, es: Seq<(Seq<u8>, Seq<u8>)>) -> Option<
    Seq<(Seq<u8>, Seq<u8>)>,
>
    decreases es.len(),
{
    if es.len() == 0 {
        Some(Seq::empty())
    } else if es[0].0 == master_key_name() || ends_with(es[0].0, token_suffix()) {
        paired(all, es.drop_first())
    } else {
        match lookup(all, es[0].0 + token_suffix()) {
            None => None,
            Some(info) => match paired(all, es.drop_first()) {
                Some(rest) => Some(seq![(es[0].1, info)] + rest),
                None => None,
            },
        }
    }
}

/// The layout of an export's entries: the master key entry, and the paired
/// token entries.
pub open spec fn layout_of(es: Seq<(Seq<u8>, Seq<u8>)>) -> Option<(Seq<u8>, Seq<(Seq<u8>, Seq<u8>)>)> {
    match lookup(es, master_key_name()) {
        None => None,
        Some(m) => match paired(es, es) {
            Some(p) => Some((m, p)),
            None => None,
        },
    }
}

impl FreeOtpLayout {
    /// The master key text and the (key, metadata) texts.
    pub open spec fn model(&self) -> (Seq<u8>, Seq<(Seq<u8>, Seq<u8>)>) {
        (self.master_key@, entry_models(self.tokens@))
    }
}

fn master_key_bytes() -> (r: Vec<u8>)
    ensures
        r@ == master_key_name(),
{
    let r: Vec<u8> = vec![109u8, 97, 115, 116, 101, 114, 75, 101, 121];
    assert(r@ =~= master_key_name());
    r
}

fn token_suffix_bytes() -> (r: Vec<u8>)
    ensures
        r@ == token_suffix(),
{
    let r: Vec<u8> = vec![45u8, 116, 111, 107, 101, 110];
    assert(r@ =~= token_suffix());
    r
}

fn has_suffix(s: &[u8], suffix: &[u8]) -> (r: bool)
    ensures
        r == ends_with(s@, suffix@),
{
    if s.len() < suffix.len() {
        return false;
    }
    let (_, tail) = s.split_at(s.len() - suffix.len());
    assert(tail@ =~= s@.skip(s@.len() - suffix@.len()));
    bytes_equal(tail, suffix)
}

fn find_value(es: &Vec<(Vec<u8>, Vec<u8>)>, k: &[u8]) -> (r: Option<usize>)
    ensures
        match lookup(entry_models(es@), k@) {
            Some(v) => r matches Some(i) && i < es@.len() && es@[i as int].1@ == v,
            None => r is None,
        },
{
    let ghost all = entry_models(es@);
    let mut i: usize = 0;
    assert(all.skip(0) =~= all);
    while i < es.len()
        invariant
            i <= es@.len(),
            all == entry_models(es@),
            lookup(all, k@) == lookup(all.skip(i as int), k@),
        decreases es@.len() - i,
    {
        assert(all.skip(i as int)[0] == all[i as int]);
        if bytes_equal(es[i].0.as_slice(), k) {
            return Some(i);
        }
        assert(all.skip(i as int).drop_first() =~= all.skip(i + 1));
        i += 1;
    }
    None
}

fn concat(a: &[u8], b: &[u8]) -> (r: Vec<u8>)
    ensures
        r@ == a@ + b@,
{
    let mut r = copy_range(a, 0, a.len());
    let mut i: usize = 0;
    assert(a@.subrange(0, a@.len() as int) =~= a@);
    while i < b.len()
        invariant
            i <= b@.len(),
            r@ == a@ + b@.take(i as int),
        decreases b@.len() - i,
    {
        r.push(b[i]);
        i += 1;
        assert(r@ =~= a@ + b@.take(i as int));
    }
    assert(b@.take(i as int) =~= b@);
    r
}

/// Pairs the entries of an export: the `masterKey` entry, and for every other
/// entry that is not a `-token` entry, its value with that of its `-token`
/// companion, in order. `Format` where the master key or a companion is missing.
pub fn freeotp_layout(es: &Vec<(Vec<u8>, Vec<u8>)>) -> (r: Result<FreeOtpLayout, DecodeError>)
    ensures
        match layout_of(entry_models(es@)) {
            Some(l) => r matches Ok(v) && v.model() == l,
            None => r == Err::<FreeOtpLayout, DecodeError>(DecodeError::Format),
        },
{
    let ghost all = entry_models(es@);
    let master_name = master_key_bytes();
    let suffix = token_suffix_bytes();
    let master_key = match find_value(es, master_name.as_slice()) {
        Some(i) => copy_range(es[i].1.as_slice(), 0, es[i].1.len()),
        None => return Err(DecodeError::Format),
    };
    let mut tokens: Vec<(Vec<u8>, Vec<u8>)> = Vec::new();
    let mut i: usize = 0;
    assert(all.skip(0) =~= all);
    while i < es.len()
        invariant
            i <= es@.len(),
            all == entry_models(es@),
            master_name@ == master_key_name(),
            suffix@ == token_suffix(),
            paired(all, all) == match paired(all, all.skip(i as int)) {
                Some(rest) => Some(entry_models(tokens@) + rest),
                None => None::<Seq<(Seq<u8>, Seq<u8>)>>,
            },
        decreases es@.len() - i,
    {
        let ghost rest = all.skip(i as int);
        assert(rest[0] == all[i as int]);
        assert(rest.drop_first() =~= all.skip(i + 1));
        let key = es[i].0.as_slice();
        if !bytes_equal(key, master_name.as_slice()) && !has_suffix(key, suffix.as_slice()) {
            let companion = concat(key, suffix.as_slice());
            match find_value(es, companion.as_slice()) {
                Some(j) => {
                    let value = copy_range(es[i].1.as_slice(), 0, es[i].1.len());
                    let info = copy_range(es[j].1.as_slice(), 0, es[j].1.len());
                    assert(value@ =~= es@[i as int].1@);
                    assert(info@ =~= es@[j as int].1@);
                    let ghost before = entry_models(tokens@);
                    tokens.push((value, info));
                    proof {
                        assert(entry_models(tokens@) =~= before.push((value@, info@)));
                        match paired(all, all.skip(i + 1)) {
                            Some(tail) => {
                                assert(before + (seq![(value@, info@)] + tail) =~= entry_models(tokens@) + tail);
                            },
                            None => {},
                        }
                    }
                },
                None => return Err(DecodeError::Format),
            }
        }
        i += 1;
    }
    assert(all.skip(i as int) =~= Seq::<(Seq<u8>, Seq<u8>)>::empty());
    assert(entry_models(tokens@) + Seq::<(Seq<u8>, Seq<u8>)>::empty() =~= entry_models(tokens@));
    Ok(FreeOtpLayout { master_key, tokens })
}

/// Reads a FreeOTP export file into its layout: the serialized map, then the
/// pairing of its entries. `Format` for a stream of another shape.
pub fn extract_file_contents(bytes: &[u8]) -> (r: Result<FreeOtpLayout, DecodeError>)
    ensures
        match java_map(bytes@) {
            None => r == Err::<FreeOtpLayout, DecodeError>(DecodeError::Format),
            Some(es) => match layout_of(es) {
                Some(l) => r matches Ok(v) && v.model() == l,
                None => r == Err::<FreeOtpLayout, DecodeError>(DecodeError::Format),
            },
        },
{
    match read_java_map(bytes) {
        Some(es) => freeotp_layout(&es),
        None => Err(DecodeError::Format),
    }
}

} // verus!
