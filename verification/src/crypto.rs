//! The shape check of ciphertext envelopes. Nothing here decrypts.

pub mod json;
pub mod validation;
