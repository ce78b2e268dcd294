//! An offline vault for one-time-password secrets: decoders for three
//! authenticator backup formats, an envelope cipher that seals each secret
//! under a passphrase-derived key, and the credential store that holds them.

pub mod buffered_stdout;
pub mod dashboard;
pub mod envelope;
pub mod freeotp;
pub mod java_stream;
pub mod migration;
pub mod otpauth;
pub mod store;
pub mod text;
pub mod types;

pub use buffered_stdout::BufferedStdout;
pub use envelope::{decrypt_secret, derive_key, encrypt_secret, CryptoError};
pub use freeotp::{
    decrypt_master_key, decrypt_token_key, default_token_digits, default_token_period,
    extract_file_contents, freeotp_layout, from_java_bytes, parse_freeotp_backup, EncryptedKey,
    EncryptedMasterKey, FreeOtpLayout, TokenInfo,
};
pub use migration::{decode_migration_line, parse_googleauth_backup};
pub use otpauth::{parse_new_token, parse_token_url};
pub use store::{add_token, AddError, KeyFile, StoreError, UseError};
pub use types::{BackupType, DecodeError, Token, TokenAlgorithm, TokenType};
