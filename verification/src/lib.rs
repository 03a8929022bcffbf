//! Core of a Bitcoin-SV transaction signing and script-matching library.
//!
//! The crate has two verified subsystems: the SIGHASH preimage builder and
//! signing engine (`sighash`), and the script template parser and matcher
//! (`template`).  `serial` holds the byte-level encoders they share, `text`
//! the byte-string scanners of the parser, `script` the tokenized script
//! representation, and `crypto` the thin trusted layer over the outside
//! hashing and ECDSA crates.

pub mod crypto;
pub mod script;
pub mod serial;
pub mod sighash;
pub mod template;
pub mod text;
