use vstd::prelude::*;

use totp_rs::{Algorithm, TOTP};

use crate::text::{copy_range, lines, occurs_at, replace_all, replace_bytes, text_lines, trim, trim_bounds};
use crate::types::{DecodeError, Token, TokenAlgorithm, TokenModel, TokenType};

verus! {

/// What an `otpauth://totp/` URI says: algorithm, digits, period, secret,
/// issuer and account name.
pub struct OtpAuth {
    pub algorithm: TokenAlgorithm,
    pub digits: usize,
    pub period: u64,
    pub secret: Vec<u8>,
    pub issuer: Option<String>,
    pub account_name: String,
}

impl View for OtpAuth {
    type V = (TokenAlgorithm, usize, u64, Seq<u8>, Option<Seq<char>>, Seq<char>);

    open spec fn view(&self) -> Self::V {
        (
            self.algorithm,
            self.digits,
            self.period,
            self.secret@,
            match self.issuer {
                Some(i) => Some(i@),
                None => None,
            },
            self.account_name@,
        )
    }
}

/// What totp-rs reads from the UTF-8 text of a provisioning URI, where it
/// accepts it.
pub uninterp spec fn otpauth_fields(url: Seq<u8>) -> Option<
    (TokenAlgorithm, usize, u64, Seq<u8>, Option<Seq<char>>, Seq<char>),
>;

/// `otpauth://totp`.
pub open spec fn totp_uri_start() -> Seq<u8> {
    seq![111u8, 116, 112, 97, 117, 116, 104, 58, 47, 47, 116, 111, 116, 112]
}

/// A URI whose authority is the host `totp`: it starts with `otpauth://totp`,
/// followed by nothing or by `/`, `?` or `#`.
pub open spec fn names_totp_host(u: Seq<u8>) -> bool {
    &&& u.len() >= 14
    &&& u.take(14) == totp_uri_start()
    &&& (u.len() == 14 || u[14] == 47 || u[14] == 63 || u[14] == 35)
}

/// Relies on std's `str::from_utf8` and totp_rs's `TOTP::from_url_unchecked`:
/// an `otpauth://totp` URI read into its algorithm (SHA1 unless given),
/// digits (6 unless given), period (30 unless given), base32-decoded secret,
/// issuer and account name. `from_url_unchecked` panics on an `otpauth` URI
/// without a host, which `names_totp_host` leaves out.
#[verifier::external_body]
fn parse_otpauth(url: &[u8]) -> (r: Option<OtpAuth>)
    requires
        names_totp_host(url@),
    ensures
        match otpauth_fields(url@) {
            Some(f) => r matches Some(o) && o@ == f,
            None => r is None,
        },
{
    let t = TOTP::from_url_unchecked(std::str::from_utf8(url).ok()?).ok()?;
    let algorithm = match t.algorithm {
        Algorithm::SHA1 => TokenAlgorithm::Sha1,
        Algorithm::SHA256 => TokenAlgorithm::Sha256,
        Algorithm::SHA512 => TokenAlgorithm::Sha512,
    };
    Some(OtpAuth {
        algorithm,
        digits: t.digits,
        period: t.step,
        secret: t.secret.clone(),
        issuer: t.issuer.clone(),
        account_name: t.account_name.clone(),
    })
}

/// `algorithm=sha`, the lower-case parameter that one authenticator writes.
pub open spec fn sha_param_lower() -> Seq<u8> {
    seq![97u8, 108, 103, 111, 114, 105, 116, 104, 109, 61, 115, 104, 97]
}

/// `algorithm=SHA`, the parameter as the URI format writes it.
pub open spec fn sha_param_upper() -> Seq<u8> {
    seq![97u8, 108, 103, 111, 114, 105, 116, 104, 109, 61, 83, 72, 65]
}

fn sha_lower() -> (r: Vec<u8>)
    ensures
        r@ == sha_param_lower(),
{
    let r: Vec<u8> = vec![97u8, 108, 103, 111, 114, 105, 116, 104, 109, 61, 115, 104, 97];
    assert(r@ =~= sha_param_lower());
    r
}

fn sha_upper() -> (r: Vec<u8>)
    ensures
        r@ == sha_param_upper(),
{
    let r: Vec<u8> = vec![97u8, 108, 103, 111, 114, 105, 116, 104, 109, 61, 83, 72, 65];
    assert(r@ =~= sha_param_upper());
    r
}

/// The token that a provisioning URI stands for: TOTP, counter 0, the issuer
/// empty where the URI names none.
pub open spec fn token_of_fields(
    f: (TokenAlgorithm, usize, u64, Seq<u8>, Option<Seq<char>>, Seq<char>),
) -> TokenModel {
    TokenModel {
        algorithm: f.0,
        counter: 0,
        digits: f.1 as u32,
        issuer: match f.4 {
            Some(i) => i,
            None => Seq::empty(),
        },
        label: f.5,
        period: f.2,
        token_type: TokenType::Totp,
        key: f.3,
    }
}

/// The token of one line of a token list: the line is trimmed, its
/// `algorithm=sha` parameters are written in upper case, and the result is
/// read as an `otpauth://totp` provisioning URI.
pub open spec fn url_token(line: Seq<u8>) -> Option<TokenModel> {
    let url = replace_all(trim(line), sha_param_lower(), sha_param_upper());
    if !names_totp_host(url) {
        None
    } else {
        match otpauth_fields(url) {
            Some(f) => Some(token_of_fields(f)),
            None => None,
        }
    }
}

fn totp_start() -> (r: Vec<u8>)
    ensures
        r@ == totp_uri_start(),
{
    let r: Vec<u8> = vec![111u8, 116, 112, 97, 117, 116, 104, 58, 47, 47, 116, 111, 116, 112];
    assert(r@ =~= totp_uri_start());
    r
}

fn has_totp_host(u: &[u8]) -> (r: bool)
    ensures
        r == names_totp_host(u@),
{
    let start = totp_start();
    if u.len() < 14 || !occurs_at(u, 0, start.as_slice()) {
        assert(u@.len() >= 14 ==> u@.subrange(0, 14) =~= u@.take(14));
        return false;
    }
    assert(u@.subrange(0, 14) =~= u@.take(14));
    u.len() == 14 || u[14] == 47 || u[14] == 63 || u[14] == 35
}

/// Reads one provisioning URI into a token whose key is the plaintext secret.
pub fn parse_token_url(line: &[u8]) -> (r: Result<Token, DecodeError>)
    ensures
        match url_token(line@) {
            Some(t) => r matches Ok(v) && v@ == t,
            None => r == Err::<Token, DecodeError>(DecodeError::Parse),
        },
{
    let (lo, hi) = trim_bounds(line);
    let trimmed = copy_range(line, lo, hi);
    let lower = sha_lower();
    let upper = sha_upper();
    let fixed = replace_bytes(trimmed.as_slice(), lower.as_slice(), upper.as_slice());
    if !has_totp_host(fixed.as_slice()) {
        return Err(DecodeError::Parse);
    }
    let f = match parse_otpauth(fixed.as_slice()) {
        Some(f) => f,
        None => return Err(DecodeError::Parse),
    };
    let issuer = match f.issuer {
        Some(i) => i,
        None => String::new(),
    };
    Ok(Token {
        algorithm: f.algorithm,
        counter: 0,
        digits: f.digits as u32,
        issuer,
        label: f.account_name,
        period: f.period,
        token_type: TokenType::Totp,
        key: f.secret,
    })
}

/// Decodes a token list: one provisioning URI per line of the trimmed text.
/// The first line that cannot be read fails the whole list.
pub fn parse_new_token(text: &[u8]) -> (r: Result<Vec<Token>, DecodeError>)
    ensures
        r is Ok <==> forall|i: int| 0 <= i < text_lines(text@).len() ==> (#[trigger] url_token(
            text_lines(text@)[i],
        )) is Some,
        r matches Ok(v) ==> v@.len() == text_lines(text@).len() && forall|i: int|
            0 <= i < v@.len() ==> Some((#[trigger] v@[i])@) == url_token(text_lines(text@)[i]),
        r matches Err(e) ==> e == DecodeError::Parse,
{
    let rows = lines(text);
    let ghost ls = text_lines(text@);
    let mut out: Vec<Token> = Vec::new();
    let mut i: usize = 0;
    while i < rows.len()
        invariant
            i <= rows@.len(),
            ls == text_lines(text@),
            rows@.len() == ls.len(),
            forall|k: int| 0 <= k < rows@.len() ==> (#[trigger] rows@[k])@ == ls[k],
            out@.len() == i,
            forall|k: int| 0 <= k < i ==> Some((#[trigger] out@[k])@) == url_token(ls[k]),
        decreases rows@.len() - i,
    {
        let row = &rows[i];
        assert(row@ == ls[i as int]);
        match parse_token_url(row.as_slice()) {
            Ok(t) => out.push(t),
            Err(e) => {
                assert(url_token(text_lines(text@)[i as int]) is None);
                return Err(e);
            },
        }
        i += 1;
    }
    assert forall|k: int| 0 <= k < text_lines(text@).len() implies (#[trigger] url_token(
        text_lines(text@)[k],
    )) is Some by {
        assert(Some(out@[k]@) == url_token(ls[k]));
    }
    Ok(out)
}

} // verus!
