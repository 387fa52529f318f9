//! The digest engines, one module per algorithm, and the word-level
//! arithmetic they share.

pub mod md5;
pub mod sha1;
pub mod words;
