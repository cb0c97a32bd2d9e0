//! Search for Ed25519 keypairs whose public key carries a date-like tag in
//! its last four bytes, and the small text format that keeps a found key.
pub mod hex_text;
pub mod key_file;
pub mod keys;
pub mod search;
pub mod validator;
