//! MD5 and SHA-1 message digests over arbitrary byte sequences, with a
//! fixed-length fingerprint type that renders to and parses from lowercase
//! hexadecimal text.
//!
//! The digest engines are pure functions: padding extends a message to a
//! 64-byte block boundary, and a block-compression loop folds the padded
//! buffer into a small register state that becomes the digest.

pub mod hashes;
pub mod utils;
