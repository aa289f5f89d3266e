//! The enumerations shared by the resolver and the pipeline.

use vstd::prelude::*;

verus! {

/// Which kind of identifier the caller asked for.
#[derive(Clone, Copy, PartialEq, Eq, Structural, Debug)]
pub enum Version {
    /// A freshly randomized identifier (version nibble 4).
    Random,
    /// An identifier derived from input bytes and the namespace constant
    /// (version nibble 5).
    NameDerived,
}

/// How the identifier is rendered on output.
#[derive(Clone, Copy, PartialEq, Eq, Structural, Debug)]
pub enum Format {
    /// Canonical hyphenated hex, letters lowercase.
    Lowercase,
    /// Canonical hyphenated hex, letters uppercase.
    Uppercase,
    /// The raw 16 bytes, written verbatim.
    Binary,
}

/// Whether standard input can be read without blocking on a human.
///
/// Derived at runtime by the caller (terminal detection is I/O and stays
/// outside this crate); never set by the user directly.
#[derive(Clone, Copy, PartialEq, Eq, Structural, Debug)]
pub enum InputAvailability {
    /// Standard input is not an interactive terminal: bytes may be read.
    Piped,
    /// Standard input is a terminal: treated as "no data available".
    Interactive,
}

/// What the decision matrix tells the caller to do.
#[derive(Clone, Copy, PartialEq, Eq, Structural, Debug)]
pub enum Action {
    /// Read all piped bytes and decode them as an existing identifier.
    DecodePassthrough,
    /// Generate a fresh random identifier; do not read input.
    GenerateRandom,
    /// Read all piped bytes and derive an identifier from them.
    DeriveFromInput,
    /// Fail: name-derivation was requested but no input is piped.
    RejectMissingInput,
}

/// Why the passthrough decoder rejected the piped bytes.
#[derive(Clone, Copy, PartialEq, Eq, Structural, Debug)]
pub enum DecodeError {
    /// The bytes were not exactly 16 long and not valid UTF-8 text.
    InvalidEncoding,
    /// The text did not match the canonical hyphenated hex grammar.
    MalformedIdentifier,
}

} // verus!
