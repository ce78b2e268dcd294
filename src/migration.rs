//! Google Authenticator migration exports: one
//! `otpauth-migration://offline?data=...` URI per line, whose data is a
//! percent-encoded base64 protobuf batch of OTP parameters.
use vstd::prelude::*;

use base64::Engine;

use vstd::arithmetic::div_mod::{lemma_add_mod_noop_right, lemma_mul_mod_noop_left};
use vstd::utf8::encode_utf8;

use crate::text::{copy_range, lines, replace_all, replace_bytes, text_lines, utf8_string, utf8_text};
use crate::types::{DecodeError, Token, TokenAlgorithm, TokenModel, TokenType};

verus! {

/// What urlencoding's percent-decoding gives for a text, where the decoded
/// bytes are UTF-8.
pub uninterp spec fn percent_decoded(s: Seq<char>) -> Option<Seq<char>>;

/// What base64's standard engine decodes from a text.
pub uninterp spec fn base64_decoded(s: Seq<u8>) -> Option<Seq<u8>>;

/// Relies on urlencoding's `decode`: `%XX` sequences replaced by their bytes,
/// an error where the result is not UTF-8.
#[verifier::external_body]
fn url_decode(s: &str) -> (r: Option<String>)
    ensures
        match percent_decoded(s@) {
            Some(d) => r matches Some(v) && v@ == d,
            None => r is None,
        },
{
    urlencoding::decode(s).ok().map(|d| d.into_owned())
}

/// Relies on base64's `engine::general_purpose::STANDARD.decode`: the bytes
/// that standard padded base64 encodes, an error for other text.
#[verifier::external_body]
fn base64_decode(s: &[u8]) -> (r: Option<Vec<u8>>)
    ensures
        match base64_decoded(s@) {
            Some(d) => r matches Some(v) && v@ == d,
            None => r is None,
        },
{
    base64::engine::general_purpose::STANDARD.decode(s).ok()
}

/// 2^64, the modulus of a varint's value.
pub open spec fn two_pow_64() -> int {
    0x1_0000_0000_0000_0000
}

/// The number that a varint's bytes spell, least significant group first.
pub open spec fn varint_value(g: Seq<u8>) -> nat
    decreases g.len(),
{
    if g.len() == 0 {
        0
    } else {
        (g[0] % 128) as nat + 128 * varint_value(g.drop_first())
    }
}

/// The end of the varint at `p`, where it ends within ten bytes.
pub open spec fn varint_end(b: Seq<u8>, p: int, k: int) -> Option<int>
    decreases 10 - k,
{
    if k < 0 || k >= 10 || p < 0 || p + k >= b.len() {
        None
    } else if b[p + k] < 128 {
        Some(p + k + 1)
    } else {
        varint_end(b, p, k + 1)
    }
}

/// The varint at `p`, modulo 2^64, with the position after it.
pub open spec fn varint_at(b: Seq<u8>, p: int) -> Option<(u64, int)> {
    match varint_end(b, p, 0) {
        Some(e) => Some(((varint_value(b.subrange(p, e)) as int % two_pow_64()) as u64, e)),
        None => None,
    }
}

/// The value of one field on the wire.
pub enum Wire {
    Varint(u64),
    Bytes(Seq<u8>),
    Fixed,
}

/// The field at `p`: its number, its value, and the position after it.
/// Field number 0, the group wire types and unknown wire types are refused.
pub open spec fn field_at(b: Seq<u8>, p: int) -> Option<(u64, Wire, int)> {
    match varint_at(b, p) {
        None => None,
        Some((tag, p1)) => {
            let number = tag / 8;
            let wire = tag % 8;
            if number == 0 {
                None
            } else if wire == 0 {
                match varint_at(b, p1) {
                    Some((v, p2)) => Some((number, Wire::Varint(v), p2)),
                    None => None,
                }
            } else if wire == 1 {
                if p1 + 8 <= b.len() {
                    Some((number, Wire::Fixed, p1 + 8))
                } else {
                    None
                }
            } else if wire == 2 {
                match varint_at(b, p1) {
                    Some((n, p2)) => if p2 + n <= b.len() {
                        Some((number, Wire::Bytes(b.subrange(p2, p2 + n)), p2 + n))
                    } else {
                        None
                    },
                    None => None,
                }
            } else if wire == 5 {
                if p1 + 4 <= b.len() {
                    Some((number, Wire::Fixed, p1 + 4))
                } else {
                    None
                }
            } else {
                None
            }
        },
    }
}

/// A varint that reads as a 32-bit signed integer (an `int32` or an enum).
pub open spec fn fits_i32(v: u64) -> bool {
    v <= 0x7fff_ffff || v >= 0xffff_ffff_8000_0000
}

/// One batch entry as read from the wire.
pub struct OtpModel {
    pub secret: Seq<u8>,
    pub name: Seq<u8>,
    pub issuer: Seq<u8>,
    pub algorithm: u64,
    pub digits: u64,
    pub otp_type: u64,
    pub counter: u64,
}

/// An entry with every field at its default.
pub open spec fn empty_otp() -> OtpModel {
    OtpModel {
        secret: Seq::empty(),
        name: Seq::empty(),
        issuer: Seq::empty(),
        algorithm: 0,
        digits: 0,
        otp_type: 0,
        counter: 0,
    }
}

/// `acc` after one field: secret (1), name (2), issuer (3), algorithm (4),
/// digits (5), type (6), counter (7); a later field replaces an earlier one,
/// other numbers are skipped, and a known field of the wrong wire type fails.
pub open spec fn apply_otp_field(acc: OtpModel, number: u64, w: Wire) -> Option<OtpModel> {
    if 1 <= number <= 3 {
        match w {
            Wire::Bytes(s) => Some(
                if number == 1 {
                    OtpModel { secret: s, ..acc }
                } else if number == 2 {
                    OtpModel { name: s, ..acc }
                } else {
                    OtpModel { issuer: s, ..acc }
                },
            ),
            _ => None,
        }
    } else if 4 <= number <= 7 {
        match w {
            Wire::Varint(v) => if number == 7 {
                Some(OtpModel { counter: v, ..acc })
            } else if !fits_i32(v) {
                None
            } else if number == 4 {
                Some(OtpModel { algorithm: v, ..acc })
            } else if number == 5 {
                Some(OtpModel { digits: v, ..acc })
            } else {
                Some(OtpModel { otp_type: v, ..acc })
            },
            _ => None,
        }
    } else {
        Some(acc)
    }
}

/// The fields of an entry message from `p` on, applied to `acc`.
pub open spec fn otp_fields(b: Seq<u8>, p: int, acc: OtpModel) -> Option<OtpModel>
    decreases b.len() - p,
{
    if p < 0 || p >= b.len() {
        Some(acc)
    } else {
        match field_at(b, p) {
            None => None,
            Some((number, w, e)) => if e <= p || e > b.len() {
                None
            } else {
                match apply_otp_field(acc, number, w) {
                    Some(a) => otp_fields(b, e, a),
                    None => None,
                }
            },
        }
    }
}

/// The entry messages of a batch message from `p` on, in order: every field 1;
/// fields 2 to 5 are 32-bit varints, other fields are skipped.
pub open spec fn batch_entries(b: Seq<u8>, p: int) -> Option<Seq<Seq<u8>>>
    decreases b.len() - p,
{
    if p < 0 || p >= b.len() {
        Some(Seq::empty())
    } else {
        match field_at(b, p) {
            None => None,
            Some((number, w, e)) => if e <= p || e > b.len() {
                None
            } else if number == 1 {
                match w {
                    Wire::Bytes(m) => match batch_entries(b, e) {
                        Some(rest) => Some(seq![m] + rest),
                        None => None,
                    },
                    _ => None,
                }
            } else if 2 <= number <= 5 {
                match w {
                    Wire::Varint(v) => if fits_i32(v) {
                        batch_entries(b, e)
                    } else {
                        None
                    },
                    _ => None,
                }
            } else {
                batch_entries(b, e)
            }
        }
    }
}

/// An entry message read whole; its name and issuer must be UTF-8.
pub open spec fn otp_message(m: Seq<u8>) -> Option<OtpModel> {
    match otp_fields(m, 0, empty_otp()) {
        Some(o) => if utf8_text(o.name) is Some && utf8_text(o.issuer) is Some {
            Some(o)
        } else {
            None
        },
        None => None,
    }
}

/// The token of a read entry: algorithm SHA1 (1), SHA256 (2) or SHA512 (3);
/// type HOTP (1) or TOTP (2); digits six (1) or eight (2); period 30; the
/// counter's low 32 bits. Any other enum value is `UnsupportedValue`.
pub open spec fn otp_token(o: OtpModel) -> Result<TokenModel, DecodeError> {
    if !(1 <= o.algorithm <= 3) || !(1 <= o.otp_type <= 2) || !(1 <= o.digits <= 2) {
        Err(DecodeError::UnsupportedValue)
    } else {
        Ok(
            TokenModel {
                algorithm: if o.algorithm == 1 {
                    TokenAlgorithm::Sha1
                } else if o.algorithm == 2 {
                    TokenAlgorithm::Sha256
                } else {
                    TokenAlgorithm::Sha512
                },
                counter: o.counter as u32,
                digits: if o.digits == 1 { 6 } else { 8 },
                issuer: utf8_text(o.issuer)->Some_0,
                label: utf8_text(o.name)->Some_0,
                period: 30,
                token_type: if o.otp_type == 1 { TokenType::Hotp } else { TokenType::Totp },
                key: o.secret,
            },
        )
    }
}

/// `otpauth-migration://offline?data=`.
pub open spec fn migration_prefix() -> Seq<u8> {
    seq![
        111u8, 116, 112, 97, 117, 116, 104, 45, 109, 105, 103, 114, 97, 116, 105, 111, 110, 58, 47,
        47, 111, 102, 102, 108, 105, 110, 101, 63, 100, 97, 116, 97, 61,
    ]
}

/// The batch bytes of one line: the prefix removed, the rest percent-decoded
/// and base64-decoded.
pub open spec fn line_payload(line: Seq<u8>) -> Option<Seq<u8>> {
    match utf8_text(replace_all(line, migration_prefix(), Seq::empty())) {
        None => None,
        Some(t) => match percent_decoded(t) {
            None => None,
            Some(d) => base64_decoded(encode_utf8(d)),
        },
    }
}

/// The read entries of one line, in order; `None` where the line is not a
/// migration URI whose batch can be read.
pub open spec fn line_entries(line: Seq<u8>) -> Option<Seq<OtpModel>> {
    match line_payload(line) {
        None => None,
        Some(b) => match batch_entries(b, 0) {
            None => None,
            Some(ms) => if forall|i: int| 0 <= i < ms.len() ==> (#[trigger] otp_message(ms[i])) is Some {
                Some(ms.map_values(|m: Seq<u8>| otp_message(m)->Some_0))
            } else {
                None
            },
        },
    }
}

/// One batch entry read from the wire.
pub struct OtpParameters {
    pub secret: Vec<u8>,
    pub name: Vec<u8>,
    pub issuer: Vec<u8>,
    pub algorithm: u64,
    pub digits: u64,
    pub otp_type: u64,
    pub counter: u64,
}

impl View for OtpParameters {
    type V = OtpModel;

    open spec fn view(&self) -> OtpModel {
        OtpModel {
            secret: self.secret@,
            name: self.name@,
            issuer: self.issuer@,
            algorithm: self.algorithm,
            digits: self.digits,
            otp_type: self.otp_type,
            counter: self.counter,
        }
    }
}

proof fn lemma_varint_step(v: int, c: int)
    requires
        v >= 0,
        0 <= c < 128,
    ensures
        (((v % two_pow_64()) * 128) % two_pow_64() + c) % two_pow_64() == (c + 128 * v) % two_pow_64(),
{
    let m = two_pow_64();
    lemma_mul_mod_noop_left(v, 128, m);
    lemma_add_mod_noop_right(c, v * 128, m);
    assert(((v % m) * 128) % m + c == c + (v * 128) % m);
}

fn read_varint(b: &[u8], p: usize) -> (r: Option<(u64, usize)>)
    ensures
        match varint_at(b@, p as int) {
            Some((v, e)) => r matches Some((v2, e2)) && v2 == v && e2 as int == e,
            None => r is None,
        },
{
    if p >= b.len() {
        return None;
    }
    let mut k: usize = 0;
    while k < 10 && k < b.len() - p && b[p + k] >= 128
        invariant
            k <= 10,
            p < b@.len(),
            varint_end(b@, p as int, 0) == varint_end(b@, p as int, k as int),
        decreases 10 - k,
    {
        k += 1;
    }
    if k >= 10 || k >= b.len() - p {
        return None;
    }
    let e = p + k + 1;
    let mut acc: u64 = 0;
    let mut j: usize = e;
    assert(b@.subrange(e as int, e as int) =~= Seq::<u8>::empty());
    while j > p
        invariant
            p <= j <= e <= b@.len(),
            acc as int == varint_value(b@.subrange(j as int, e as int)) as int % two_pow_64(),
        decreases j,
    {
        j -= 1;
        let c = b[j] % 128;
        proof {
            let g = b@.subrange(j as int, e as int);
            assert(g.drop_first() =~= b@.subrange(j + 1, e as int));
            lemma_varint_step(varint_value(b@.subrange(j + 1, e as int)) as int, c as int);
        }
        acc = acc.wrapping_mul(128).wrapping_add(c as u64);
    }
    Some((acc, e))
}

/// A field read from the wire; `bytes` holds the value of a length-delimited field.
struct RawField {
    number: u64,
    wire: u64,
    value: u64,
    bytes: Vec<u8>,
}

spec fn raw_matches(f: RawField, number: u64, w: Wire) -> bool {
    &&& f.number == number
    &&& match w {
        Wire::Varint(v) => f.wire == 0 && f.value == v,
        Wire::Bytes(s) => f.wire == 2 && f.bytes@ == s,
        Wire::Fixed => f.wire != 0 && f.wire != 2,
    }
}

fn read_field(b: &[u8], p: usize) -> (r: Option<(RawField, usize)>)
    ensures
        match field_at(b@, p as int) {
            Some((number, w, e)) => r matches Some((f, e2)) && raw_matches(f, number, w) && e2 as int == e,
            None => r is None,
        },
{
    let (tag, p1) = match read_varint(b, p) {
        Some(x) => x,
        None => return None,
    };
    let number = tag / 8;
    let wire = tag % 8;
    if number == 0 {
        return None;
    }
    if wire == 0 {
        match read_varint(b, p1) {
            Some((v, p2)) => Some((RawField { number, wire, value: v, bytes: Vec::new() }, p2)),
            None => None,
        }
    } else if wire == 1 || wire == 5 {
        let width: usize = if wire == 1 { 8 } else { 4 };
        if p1 > b.len() || b.len() - p1 < width {
            return None;
        }
        Some((RawField { number, wire, value: 0, bytes: Vec::new() }, p1 + width))
    } else if wire == 2 {
        match read_varint(b, p1) {
            Some((n, p2)) => {
                if p2 > b.len() || ((b.len() - p2) as u64) < n {
                    return None;
                }
                let end = p2 + n as usize;
                let bytes = copy_range(b, p2, end);
                Some((RawField { number, wire, value: 0, bytes }, end))
            },
            None => None,
        }
    } else {
        None
    }
}

fn fits(v: u64) -> (r: bool)
    ensures
        r == fits_i32(v),
{
    v <= 0x7fff_ffff || v >= 0xffff_ffff_8000_0000
}

fn read_otp_message(m: &[u8]) -> (r: Option<OtpParameters>)
    ensures
        match otp_fields(m@, 0, empty_otp()) {
            Some(o) => r matches Some(v) && v@ == o,
            None => r is None,
        },
{
    let mut acc = OtpParameters {
        secret: Vec::new(),
        name: Vec::new(),
        issuer: Vec::new(),
        algorithm: 0,
        digits: 0,
        otp_type: 0,
        counter: 0,
    };
    assert(acc@ =~= empty_otp());
    let mut p: usize = 0;
    while p < m.len()
        invariant
            p <= m@.len(),
            otp_fields(m@, 0, empty_otp()) == otp_fields(m@, p as int, acc@),
        decreases m@.len() - p,
    {
        let (f, e) = match read_field(m, p) {
            Some(x) => x,
            None => return None,
        };
        if e <= p || e > m.len() {
            return None;
        }
        let ghost before = acc@;
        if 1 <= f.number && f.number <= 3 {
            if f.wire != 2 {
                return None;
            }
            if f.number == 1 {
                acc.secret = f.bytes;
            } else if f.number == 2 {
                acc.name = f.bytes;
            } else {
                acc.issuer = f.bytes;
            }
        } else if 4 <= f.number && f.number <= 7 {
            if f.wire != 0 {
                return None;
            }
            if f.number == 7 {
                acc.counter = f.value;
            } else if !fits(f.value) {
                return None;
            } else if f.number == 4 {
                acc.algorithm = f.value;
            } else if f.number == 5 {
                acc.digits = f.value;
            } else {
                acc.otp_type = f.value;
            }
        }
        proof {
            let (number, w, e2) = field_at(m@, p as int)->Some_0;
            assert(apply_otp_field(before, number, w) == Some(acc@));
        }
        p = e;
    }
    Some(acc)
}

fn read_batch(b: &[u8]) -> (r: Option<Vec<Vec<u8>>>)
    ensures
        match batch_entries(b@, 0) {
            Some(ms) => r matches Some(v) && v@.len() == ms.len() && forall|i: int|
                0 <= i < ms.len() ==> (#[trigger] v@[i])@ == ms[i],
            None => r is None,
        },
{
    let mut out: Vec<Vec<u8>> = Vec::new();
    let mut p: usize = 0;
    while p < b.len()
        invariant
            p <= b@.len(),
            batch_entries(b@, 0) == match batch_entries(b@, p as int) {
                Some(rest) => Some(out@.map_values(|v: Vec<u8>| v@) + rest),
                None => None::<Seq<Seq<u8>>>,
            },
        decreases b@.len() - p,
    {
        let (f, e) = match read_field(b, p) {
            Some(x) => x,
            None => return None,
        };
        if e <= p || e > b.len() {
            return None;
        }
        if f.number == 1 {
            if f.wire != 2 {
                return None;
            }
            let ghost before = out@.map_values(|v: Vec<u8>| v@);
            let ghost m = f.bytes@;
            out.push(f.bytes);
            proof {
                assert(out@.map_values(|v: Vec<u8>| v@) =~= before.push(m));
                match batch_entries(b@, e as int) {
                    Some(rest) => {
                        assert(before + (seq![m] + rest) =~= out@.map_values(|v: Vec<u8>| v@) + rest);
                    },
                    None => {},
                }
            }
        } else if 2 <= f.number && f.number <= 5 {
            if f.wire != 0 || !fits(f.value) {
                return None;
            }
        }
        p = e;
    }
    let ghost done = out@.map_values(|v: Vec<u8>| v@);
    assert(done + Seq::<Seq<u8>>::empty() =~= done);
    proof {
        assert forall|i: int| 0 <= i < done.len() implies (#[trigger] out@[i])@ == done[i] by {}
    }
    Some(out)
}

/// The tokens of read entries, in order; the first entry that cannot be
/// mapped fails them all.
pub open spec fn tokens_of(os: Seq<OtpModel>) -> Result<Seq<TokenModel>, DecodeError>
    decreases os.len(),
{
    if os.len() == 0 {
        Ok(Seq::empty())
    } else {
        match otp_token(os[0]) {
            Err(e) => Err(e),
            Ok(t) => match tokens_of(os.drop_first()) {
                Ok(rest) => Ok(seq![t] + rest),
                Err(e) => Err(e),
            },
        }
    }
}

/// The tokens of one migration URI; `Format` where its batch cannot be read.
pub open spec fn line_tokens(line: Seq<u8>) -> Result<Seq<TokenModel>, DecodeError> {
    match line_entries(line) {
        None => Err(DecodeError::Format),
        Some(os) => tokens_of(os),
    }
}

/// The tokens of all lines, batch after batch in line order; the first line
/// that fails fails the whole export.
pub open spec fn lines_tokens(ls: Seq<Seq<u8>>) -> Result<Seq<TokenModel>, DecodeError>
    decreases ls.len(),
{
    if ls.len() == 0 {
        Ok(Seq::empty())
    } else {
        match line_tokens(ls[0]) {
            Err(e) => Err(e),
            Ok(ts) => match lines_tokens(ls.drop_first()) {
                Ok(rest) => Ok(ts + rest),
                Err(e) => Err(e),
            },
        }
    }
}

/// The models of a list of tokens.
pub open spec fn token_models(ts: Seq<Token>) -> Seq<TokenModel> {
    ts.map_values(|t: Token| t@)
}

fn prefix_bytes() -> (r: Vec<u8>)
    ensures
        r@ == migration_prefix(),
{
    let r: Vec<u8> = vec![
        111u8, 116, 112, 97, 117, 116, 104, 45, 109, 105, 103, 114, 97, 116, 105, 111, 110, 58, 47,
        47, 111, 102, 102, 108, 105, 110, 101, 63, 100, 97, 116, 97, 61,
    ];
    assert(r@ =~= migration_prefix());
    r
}

/// An entry read whole, with its name and issuer as text.
struct ReadEntry {
    params: OtpParameters,
    name: String,
    issuer: String,
}

fn read_line_entries(line: &[u8]) -> (r: Option<Vec<ReadEntry>>)
    ensures
        match line_entries(line@) {
            Some(os) => r matches Some(v) && v@.len() == os.len() && forall|i: int|
                0 <= i < os.len() ==> {
                    &&& (#[trigger] v@[i]).params@ == os[i]
                    &&& utf8_text(os[i].name) == Some(v@[i].name@)
                    &&& utf8_text(os[i].issuer) == Some(v@[i].issuer@)
                },
            None => r is None,
        },
{
    let prefix = prefix_bytes();
    let nothing: Vec<u8> = Vec::new();
    assert(nothing@ =~= Seq::<u8>::empty());
    let stripped = replace_bytes(line, prefix.as_slice(), nothing.as_slice());
    assert(stripped@ == replace_all(line@, migration_prefix(), Seq::empty()));
    let text = match utf8_string(stripped.as_slice()) {
        Some(t) => t,
        None => return None,
    };
    let decoded = match url_decode(text.as_str()) {
        Some(d) => d,
        None => return None,
    };
    let decoded_bytes = decoded.as_str().as_bytes();
    assert(decoded_bytes@ == encode_utf8(decoded@));
    let payload = match base64_decode(decoded_bytes) {
        Some(b) => b,
        None => return None,
    };
    let messages = match read_batch(payload.as_slice()) {
        Some(ms) => ms,
        None => return None,
    };
    let ghost ms = batch_entries(payload@, 0)->Some_0;
    let mut out: Vec<ReadEntry> = Vec::new();
    let mut i: usize = 0;
    while i < messages.len()
        invariant
            i <= messages@.len(),
            line_payload(line@) == Some(payload@),
            batch_entries(payload@, 0) == Some(ms),
            messages@.len() == ms.len(),
            forall|k: int| 0 <= k < ms.len() ==> (#[trigger] messages@[k])@ == ms[k],
            out@.len() == i,
            forall|k: int| 0 <= k < i ==> {
                &&& otp_message(ms[k]) == Some((#[trigger] out@[k]).params@)
                &&& utf8_text(out@[k].params@.name) == Some(out@[k].name@)
                &&& utf8_text(out@[k].params@.issuer) == Some(out@[k].issuer@)
            },
        decreases messages@.len() - i,
    {
        assert(messages@[i as int]@ == ms[i as int]);
        let o = match read_otp_message(messages[i].as_slice()) {
            Some(o) => o,
            None => {
                assert(otp_message(ms[i as int]) is None);
                return None;
            },
        };
        let name = match utf8_string(o.name.as_slice()) {
            Some(n) => n,
            None => {
                assert(otp_message(ms[i as int]) is None);
                return None;
            },
        };
        let issuer = match utf8_string(o.issuer.as_slice()) {
            Some(n) => n,
            None => {
                assert(otp_message(ms[i as int]) is None);
                return None;
            },
        };
        out.push(ReadEntry { params: o, name, issuer });
        i += 1;
    }
    proof {
        assert forall|k: int| 0 <= k < ms.len() implies (#[trigger] otp_message(ms[k])) is Some by {
            assert(otp_message(ms[k]) == Some(out@[k].params@));
        }
        let os = ms.map_values(|m: Seq<u8>| otp_message(m)->Some_0);
        assert forall|k: int| 0 <= k < os.len() implies (#[trigger] out@[k]).params@ == os[k] by {
            assert(otp_message(ms[k]) == Some(out@[k].params@));
        }
    }
    Some(out)
}

fn entry_to_token(e: &ReadEntry) -> (r: Result<Token, DecodeError>)
    requires
        utf8_text(e.params@.name) == Some(e.name@),
        utf8_text(e.params@.issuer) == Some(e.issuer@),
    ensures
        match otp_token(e.params@) {
            Ok(t) => r matches Ok(v) && v@ == t,
            Err(x) => r == Err::<Token, DecodeError>(x),
        },
{
    let o = &e.params;
    if !(1 <= o.algorithm && o.algorithm <= 3) || !(1 <= o.otp_type && o.otp_type <= 2) || !(1
        <= o.digits && o.digits <= 2) {
        return Err(DecodeError::UnsupportedValue);
    }
    let algorithm = if o.algorithm == 1 {
        TokenAlgorithm::Sha1
    } else if o.algorithm == 2 {
        TokenAlgorithm::Sha256
    } else {
        TokenAlgorithm::Sha512
    };
    let token_type = if o.otp_type == 1 {
        TokenType::Hotp
    } else {
        TokenType::Totp
    };
    let digits: u32 = if o.digits == 1 { 6 } else { 8 };
    let key = copy_range(o.secret.as_slice(), 0, o.secret.len());
    assert(key@ =~= o.secret@);
    Ok(Token {
        algorithm,
        counter: o.counter as u32,
        digits,
        issuer: e.issuer.clone(),
        label: e.name.clone(),
        period: 30,
        token_type,
        key,
    })
}

/// Decodes the tokens of one migration URI, in batch order.
pub fn decode_migration_line(line: &[u8]) -> (r: Result<Vec<Token>, DecodeError>)
    ensures
        match line_tokens(line@) {
            Ok(ts) => r matches Ok(v) && token_models(v@) == ts,
            Err(e) => r == Err::<Vec<Token>, DecodeError>(e),
        },
{
    let entries = match read_line_entries(line) {
        Some(es) => es,
        None => return Err(DecodeError::Format),
    };
    let ghost os = line_entries(line@)->Some_0;
    let mut out: Vec<Token> = Vec::new();
    let mut i: usize = 0;
    assert(os.skip(0) =~= os);
    while i < entries.len()
        invariant
            i <= entries@.len(),
            line_entries(line@) == Some(os),
            entries@.len() == os.len(),
            forall|k: int| 0 <= k < os.len() ==> {
                &&& (#[trigger] entries@[k]).params@ == os[k]
                &&& utf8_text(os[k].name) == Some(entries@[k].name@)
                &&& utf8_text(os[k].issuer) == Some(entries@[k].issuer@)
            },
            tokens_of(os) == match tokens_of(os.skip(i as int)) {
                Ok(rest) => Ok(token_models(out@) + rest),
                Err(e) => Err::<Seq<TokenModel>, DecodeError>(e),
            },
        decreases entries@.len() - i,
    {
        let ghost rest = os.skip(i as int);
        assert(rest[0] == os[i as int]);
        assert(rest.drop_first() =~= os.skip(i + 1));
        let t = match entry_to_token(&entries[i]) {
            Ok(t) => t,
            Err(e) => {
                assert(tokens_of(rest) == Err::<Seq<TokenModel>, DecodeError>(e));
                return Err(e);
            },
        };
        let ghost before = token_models(out@);
        let ghost tm = t@;
        out.push(t);
        proof {
            assert(token_models(out@) =~= before.push(tm));
            match tokens_of(os.skip(i + 1)) {
                Ok(tail) => {
                    assert(before + (seq![tm] + tail) =~= token_models(out@) + tail);
                },
                Err(_) => {},
            }
        }
        i += 1;
    }
    assert(os.skip(i as int) =~= Seq::<OtpModel>::empty());
    assert(token_models(out@) + Seq::<TokenModel>::empty() =~= token_models(out@));
    Ok(out)
}

/// Decodes a migration export: the trimmed text's lines, each a migration URI,
/// their batches concatenated in line order.
pub fn parse_googleauth_backup(text: &[u8]) -> (r: Result<Vec<Token>, DecodeError>)
    ensures
        match lines_tokens(text_lines(text@)) {
            Ok(ts) => r matches Ok(v) && token_models(v@) == ts,
            Err(e) => r == Err::<Vec<Token>, DecodeError>(e),
        },
{
    let rows = lines(text);
    let ghost ls = text_lines(text@);
    let mut out: Vec<Token> = Vec::new();
    let mut i: usize = 0;
    assert(ls.skip(0) =~= ls);
    while i < rows.len()
        invariant
            i <= rows@.len(),
            ls == text_lines(text@),
            rows@.len() == ls.len(),
            forall|k: int| 0 <= k < ls.len() ==> (#[trigger] rows@[k])@ == ls[k],
            lines_tokens(ls) == match lines_tokens(ls.skip(i as int)) {
                Ok(rest) => Ok(token_models(out@) + rest),
                Err(e) => Err::<Seq<TokenModel>, DecodeError>(e),
            },
        decreases rows@.len() - i,
    {
        let ghost rest = ls.skip(i as int);
        assert(rest[0] == ls[i as int]);
        assert(rest.drop_first() =~= ls.skip(i + 1));
        assert(rows@[i as int]@ == ls[i as int]);
        let mut batch = match decode_migration_line(rows[i].as_slice()) {
            Ok(ts) => ts,
            Err(e) => return Err(e),
        };
        let ghost before = token_models(out@);
        let ghost added = token_models(batch@);
        out.append(&mut batch);
        proof {
            assert(token_models(out@) =~= before + added);
            match lines_tokens(ls.skip(i + 1)) {
                Ok(tail) => {
                    assert(before + (added + tail) =~= token_models(out@) + tail);
                },
                Err(_) => {},
            }
        }
        i += 1;
    }
    assert(ls.skip(i as int) =~= Seq::<Seq<u8>>::empty());
    assert(token_models(out@) + Seq::<TokenModel>::empty() =~= token_models(out@));
    Ok(out)
}

} // verus!
