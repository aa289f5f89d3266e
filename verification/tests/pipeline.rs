use uuid_cli::codec::render;
use uuid_cli::pipeline::decide;
use uuid_cli::pipeline::derive_identifier;
use uuid_cli::pipeline::generate_random;
use uuid_cli::pipeline::namespace_oid_bytes;
use uuid_cli::types::Action;
use uuid_cli::types::Format;
use uuid_cli::types::InputAvailability;
use uuid_cli::types::Version;

#[test]
fn no_version_with_piped_input_decodes_passthrough() {
    assert_eq!(decide(None, InputAvailability::Piped), Action::DecodePassthrough);
}

#[test]
fn no_version_interactive_generates_random() {
    assert_eq!(decide(None, InputAvailability::Interactive), Action::GenerateRandom);
}

#[test]
fn random_request_never_reads_input() {
    assert_eq!(decide(Some(Version::Random), InputAvailability::Piped), Action::GenerateRandom);
    assert_eq!(
        decide(Some(Version::Random), InputAvailability::Interactive),
        Action::GenerateRandom
    );
}

#[test]
fn name_derivation_with_piped_input_derives() {
    assert_eq!(decide(Some(Version::NameDerived), InputAvailability::Piped), Action::DeriveFromInput);
}

#[test]
fn name_derivation_without_piped_input_is_rejected() {
    assert_eq!(
        decide(Some(Version::NameDerived), InputAvailability::Interactive),
        Action::RejectMissingInput
    );
}

#[test]
fn random_identifiers_differ_and_carry_the_bit_fields() {
    let a = generate_random().to_bytes();
    let b = generate_random().to_bytes();
    assert_ne!(a, b);
    assert_eq!(a[6] >> 4, 4);
    assert_eq!(a[8] >> 6, 0b10);
    assert_eq!(b[6] >> 4, 4);
    assert_eq!(b[8] >> 6, 0b10);
}

#[test]
fn derivation_is_deterministic() {
    let a = derive_identifier(&b"some name".to_vec());
    let b = derive_identifier(&b"some name".to_vec());
    assert_eq!(a, b);
}

#[test]
fn derivation_distinguishes_names() {
    let a = derive_identifier(&b"some name".to_vec());
    let b = derive_identifier(&b"some other name".to_vec());
    assert_ne!(a, b);
}

#[test]
fn derived_identifiers_carry_the_bit_fields() {
    let bytes = derive_identifier(&b"anything".to_vec()).to_bytes();
    assert_eq!(bytes[6] >> 4, 5);
    assert_eq!(bytes[8] >> 6, 0b10);
}

#[test]
fn namespace_constant_matches_the_oid_namespace() {
    assert_eq!(namespace_oid_bytes(), uuid::Uuid::NAMESPACE_OID.as_bytes().to_vec());
}

#[test]
fn derivation_matches_the_name_based_algorithm() {
    let name = b"cross-check".to_vec();
    let ours = derive_identifier(&name).to_bytes();
    let theirs = uuid::Uuid::new_v5(&uuid::Uuid::NAMESPACE_OID, &name);
    assert_eq!(ours, theirs.as_bytes().to_vec());
}

#[test]
fn derivation_of_hello_is_pinned() {
    let id = derive_identifier(&b"hello".to_vec());
    let text = render(&id, Format::Lowercase);
    assert_eq!(String::from_utf8(text).unwrap(), "4d71d03f-f19b-5d9e-8523-9628ba18063c");
}
