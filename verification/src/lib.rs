//! A verified core for a command-line identifier generator.
//!
//! The library resolves command-line tokens into a requested identifier
//! version and output format, decides between random generation,
//! name-derivation and passthrough decoding based on whether input is piped,
//! and encodes/decodes identifiers across three representations: lowercase
//! hyphenated hex, uppercase hyphenated hex, and raw 16-byte binary.
//!
//! All I/O (reading standard input, writing standard output, process exit)
//! lives outside this crate; the functions here are pure over plain values,
//! except for the thin trusted wrappers around the random and name-based
//! generation primitives of the `uuid` crate.

pub mod codec;
pub mod identifier;
pub mod pipeline;
pub mod resolver;
pub mod types;
pub mod utf8;
