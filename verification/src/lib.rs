//! A Time-based One-Time Password (TOTP, RFC 6238) generator built on the
//! HMAC-based One-Time Password (HOTP, RFC 4226) primitive.
//!
//! The library turns an authenticator URI (`otpauth://totp/...`) into a
//! validated configuration and derives a short, fixed-width decimal code
//! from the shared secret and a time-step counter.

pub mod totp;
pub mod uri;
