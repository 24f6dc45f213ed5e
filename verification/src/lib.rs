//! A small password-encryption library: AES-128-CBC with PKCS#7 padding under a
//! fixed key and initialization vector, base64 transport encoding, and the
//! request/response handling of an HTTP service built around that operation.

pub mod crypto;
pub mod exposition;
pub mod json;
pub mod service;

pub use crypto::{decrypt_token, encrypt_password, encrypt_then_decrypt, encrypt_token, DecryptError};
pub use json::{parse_request, ReqError};
pub use service::{encrypt, invalid_body_reply, metrics, HttpReply};
