//! The identifier pipeline: the version/input decision matrix and the
//! generation primitives.
//!
//! The decision matrix is a pure function of the requested version and the
//! input availability; the caller performs the I/O the chosen action asks
//! for (reading piped bytes, reporting the failure) and hands plain bytes
//! back in. Random and name-based generation delegate to the `uuid` crate
//! through the trusted wrappers below.

use vstd::prelude::*;

use crate::identifier::Identifier;
use crate::types::Action;
use crate::types::InputAvailability;
use crate::types::Version;

verus! {

/// What the pipeline does for each requested version and input status.
///
/// With no version requested, piped bytes are decoded as an existing
/// identifier (passthrough) and an interactive terminal defaults to random
/// generation. An explicit random request never reads input; name
/// derivation demands piped input and fails interactively.
pub open spec fn decide_spec(version: Option<Version>, input: InputAvailability) -> Action {
    match (version, input) {
        (Option::None, InputAvailability::Piped) => Action::DecodePassthrough,
        (Option::None, InputAvailability::Interactive) => Action::GenerateRandom,
        (Option::Some(Version::Random), _) => Action::GenerateRandom,
        (Option::Some(Version::NameDerived), InputAvailability::Piped) => Action::DeriveFromInput,
        (Option::Some(Version::NameDerived), InputAvailability::Interactive) => Action::RejectMissingInput,
    }
}

/// The decision matrix, as executable code.
pub fn decide(version: Option<Version>, input: InputAvailability) -> (a: Action)
    ensures
        a == decide_spec(version, input),
{
    match (version, input) {
        (Option::None, InputAvailability::Piped) => Action::DecodePassthrough,
        (Option::None, InputAvailability::Interactive) => Action::GenerateRandom,
        (Option::Some(Version::Random), _) => Action::GenerateRandom,
        (Option::Some(Version::NameDerived), InputAvailability::Piped) => Action::DeriveFromInput,
        (Option::Some(Version::NameDerived), InputAvailability::Interactive) => Action::RejectMissingInput,
    }
}

/// The fixed namespace constant that salts all name-derived identifiers:
/// the well-known namespace for ISO object identifiers.
pub open spec fn namespace_oid() -> Seq<u8> {
    seq![
        0x6bu8,
        0xa7u8,
        0xb8u8,
        0x12u8,
        0x9du8,
        0xadu8,
        0x11u8,
        0xd1u8,
        0x80u8,
        0xb4u8,
        0x00u8,
        0xc0u8,
        0x4fu8,
        0xd4u8,
        0x30u8,
        0xc8u8,
    ]
}

/// The version nibble of an identifier: the high four bits of byte 6.
pub open spec fn version_nibble(id: Seq<u8>) -> u8
    recommends
        id.len() == 16,
{
    id[6] / 16
}

/// Whether the variant field of an identifier holds the standard layout:
/// the top two bits of byte 8 are `10`.
pub open spec fn has_standard_variant(id: Seq<u8>) -> bool
    recommends
        id.len() == 16,
{
    id[8] / 64 == 2
}

/// The 16 bytes of the version-5 identifier that the name-based algorithm
/// yields for a namespace and a name; a function of those bytes alone.
pub uninterp spec fn v5_digest(namespace: Seq<u8>, name: Seq<u8>) -> Seq<u8>;

/// Relies on `uuid::Uuid::new_v4`: 16 bytes drawn from the operating
/// system's random source, with the version nibble forced to 4 and the
/// standard variant bits set. Nothing more is promised of a random value.
#[verifier::external_body]
fn uuid_v4_bytes() -> (r: Vec<u8>)
    ensures
        r@.len() == 16,
        version_nibble(r@) == 4,
        has_standard_variant(r@),
{
    uuid::Uuid::new_v4().as_bytes().to_vec()
}

/// Relies on `uuid::Uuid::new_v5`: the deterministic SHA-1-based,
/// name-keyed digest of the namespace and name bytes, truncated to 16
/// bytes with the version nibble forced to 5 and the standard variant bits
/// set.
#[verifier::external_body]
fn uuid_v5_bytes(namespace: &Vec<u8>, name: &Vec<u8>) -> (r: Vec<u8>)
    requires
        namespace@.len() == 16,
    ensures
        r@ == v5_digest(namespace@, name@),
        r@.len() == 16,
        version_nibble(r@) == 5,
        has_standard_variant(r@),
{
    let ns = uuid::Uuid::from_slice(namespace.as_slice()).unwrap();
    uuid::Uuid::new_v5(&ns, name.as_slice()).as_bytes().to_vec()
}

/// The namespace constant as bytes.
pub fn namespace_oid_bytes() -> (r: Vec<u8>)
    ensures
        r@ == namespace_oid(),
{
    let mut v: Vec<u8> = Vec::new();
    v.push(0x6b);
    v.push(0xa7);
    v.push(0xb8);
    v.push(0x12);
    v.push(0x9d);
    v.push(0xad);
    v.push(0x11);
    v.push(0xd1);
    v.push(0x80);
    v.push(0xb4);
    v.push(0x00);
    v.push(0xc0);
    v.push(0x4f);
    v.push(0xd4);
    v.push(0x30);
    v.push(0xc8);
    proof {
        assert(v@ =~= namespace_oid());
    }
    v
}

/// Generates a fresh random identifier: version nibble 4, standard
/// variant bits, the rest unpredictable.
pub fn generate_random() -> (r: Identifier)
    ensures
        r@.len() == 16,
        version_nibble(r@) == 4,
        has_standard_variant(r@),
{
    Identifier::from_bytes(uuid_v4_bytes())
}

/// Derives the identifier for the given name bytes: the name-based digest
/// keyed by the fixed namespace constant, with version nibble 5 and the
/// standard variant bits. The bytes are hashed exactly as handed in; no
/// trailing-newline trimming is applied here.
pub fn derive_identifier(name: &Vec<u8>) -> (r: Identifier)
    ensures
        r@ == v5_digest(namespace_oid(), name@),
        r@.len() == 16,
        version_nibble(r@) == 5,
        has_standard_variant(r@),
{
    let ns = namespace_oid_bytes();
    Identifier::from_bytes(uuid_v5_bytes(&ns, name))
}

/// Name-derivation is deterministic: two derivations over the same
/// namespace and the same name bytes are the same identifier. Together
/// with the contract of `derive_identifier`, any two calls on equal input
/// bytes return bit-identical identifiers.
pub proof fn lemma_derivation_deterministic(
    r1: Seq<u8>,
    r2: Seq<u8>,
    namespace: Seq<u8>,
    name: Seq<u8>,
)
    requires
        r1 == v5_digest(namespace, name),
        r2 == v5_digest(namespace, name),
    ensures
        r1 == r2,
{
}

} // verus!
