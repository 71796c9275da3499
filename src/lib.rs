//! Time-based one-time passwords (HOTP/TOTP) and `otpauth://` URI decoding.
//!
//! - [`uri`] turns an `otpauth://totp/<label>?secret=<base32>` URI into its
//!   label and secret;
//! - [`digest`] computes the HMAC-SHA1 digest of the time-step counter under
//!   the decoded secret;
//! - [`code`] turns a digest into a zero-padded decimal code by dynamic
//!   truncation.

pub mod code;
pub mod digest;
pub mod uri;
