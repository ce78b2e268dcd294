use vstd::prelude::*;

verus! {

/// HMAC hash that a code generator uses for a token.
#[derive(Clone, Copy, Debug, PartialEq, Eq, Structural)]
pub enum TokenAlgorithm {
    Sha1,
    Sha256,
    Sha512,
}

/// Counter-based or time-based one-time password.
#[derive(Clone, Copy, Debug, PartialEq, Eq, Structural)]
pub enum TokenType {
    Hotp,
    Totp,
}

/// The backup formats that can be imported.
#[derive(Clone, Copy, Debug, PartialEq, Eq, Structural)]
pub enum BackupType {
    /// One `otpauth://` provisioning URI per line.
    TokensList,
    /// A FreeOTP export: a serialized Java map of encrypted entries.
    FreeOtp,
    /// Google Authenticator migration URIs carrying protobuf batches.
    GoogleAuth,
}

/// Failures of the backup decoders.
#[derive(Clone, Copy, Debug, PartialEq, Eq, Structural)]
pub enum DecodeError {
    /// A line is not a provisioning URI that can be read.
    Parse,
    /// Malformed backup bytes: an unexpected stream shape, metadata or message.
    Format,
    /// Well-formed data naming an algorithm, digit count or type that is not handled.
    UnsupportedValue,
    /// An authentication tag did not verify: wrong backup password or tampered data.
    Authentication,
}

/// One OTP credential. `key` is the raw shared secret while a token travels
/// from a decoder to the cipher, and the sealed blob once it is stored.
#[derive(Clone, Debug)]
pub struct Token {
    pub algorithm: TokenAlgorithm,
    pub counter: u32,
    pub digits: u32,
    pub issuer: String,
    pub label: String,
    pub period: u64,
    pub token_type: TokenType,
    pub key: Vec<u8>,
}

/// The mathematical value of a token.
pub struct TokenModel {
    pub algorithm: TokenAlgorithm,
    pub counter: u32,
    pub digits: u32,
    pub issuer: Seq<char>,
    pub label: Seq<char>,
    pub period: u64,
    pub token_type: TokenType,
    pub key: Seq<u8>,
}

impl View for Token {
    type V = TokenModel;

    open spec fn view(&self) -> TokenModel {
        TokenModel {
            algorithm: self.algorithm,
            counter: self.counter,
            digits: self.digits,
            issuer: self.issuer@,
            label: self.label@,
            period: self.period,
            token_type: self.token_type,
            key: self.key@,
        }
    }
}

impl TokenModel {
    /// The same token with another key.
    pub open spec fn with_key(self, key: Seq<u8>) -> TokenModel {
        TokenModel { key, ..self }
    }
}

impl Token {
    /// The same token carrying `key` in place of its own key.
    pub fn with_key(&self, key: Vec<u8>) -> (r: Token)
        ensures
            r@ == self@.with_key(key@),
    {
        Token {
            algorithm: self.algorithm,
            counter: self.counter,
            digits: self.digits,
            issuer: self.issuer.clone(),
            label: self.label.clone(),
            period: self.period,
            token_type: self.token_type,
            key,
        }
    }
}

} // verus!
