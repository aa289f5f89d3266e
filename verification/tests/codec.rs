use uuid_cli::codec::decode_passthrough;
use uuid_cli::codec::render;
use uuid_cli::identifier::Identifier;
use uuid_cli::types::DecodeError;
use uuid_cli::types::Format;

fn sample_bytes() -> Vec<u8> {
    vec![
        0x00, 0x01, 0x02, 0x03, 0x04, 0x05, 0x06, 0x07, 0x08, 0x09, 0x0a, 0x0b, 0xcd, 0xef,
        0xAB, 0xFF,
    ]
}

#[test]
fn renders_lowercase_text() {
    let id = Identifier::from_bytes(sample_bytes());
    let out = render(&id, Format::Lowercase);
    assert_eq!(out, b"00010203-0405-0607-0809-0a0bcdefabff".to_vec());
}

#[test]
fn renders_uppercase_text() {
    let id = Identifier::from_bytes(sample_bytes());
    let out = render(&id, Format::Uppercase);
    assert_eq!(out, b"00010203-0405-0607-0809-0A0BCDEFABFF".to_vec());
}

#[test]
fn renders_binary_verbatim() {
    let id = Identifier::from_bytes(sample_bytes());
    assert_eq!(render(&id, Format::Binary), sample_bytes());
}

#[test]
fn sixteen_bytes_decode_as_binary() {
    let id = decode_passthrough(&sample_bytes()).expect("16 bytes must decode");
    assert_eq!(id.to_bytes(), sample_bytes());
}

#[test]
fn sixteen_zero_bytes_render_uppercase() {
    let id = decode_passthrough(&vec![0u8; 16]).expect("16 bytes must decode");
    let out = render(&id, Format::Uppercase);
    assert_eq!(out, b"00000000-0000-0000-0000-000000000000".to_vec());
}

#[test]
fn sixteen_ascii_bytes_are_still_binary() {
    // Exactly 16 bytes are taken as the binary encoding even when they are
    // printable text.
    let input = b"0123456789abcdef".to_vec();
    let id = decode_passthrough(&input).expect("16 bytes must decode");
    assert_eq!(id.to_bytes(), input);
}

#[test]
fn lowercase_text_round_trips() {
    let id = Identifier::from_bytes(sample_bytes());
    let text = render(&id, Format::Lowercase);
    let back = decode_passthrough(&text).expect("canonical text must decode");
    assert_eq!(back.to_bytes(), sample_bytes());
}

#[test]
fn uppercase_text_round_trips() {
    let id = Identifier::from_bytes(sample_bytes());
    let text = render(&id, Format::Uppercase);
    let back = decode_passthrough(&text).expect("canonical text must decode");
    assert_eq!(back.to_bytes(), sample_bytes());
}

#[test]
fn mixed_case_text_is_accepted() {
    let input = b"00010203-0405-0607-0809-0A0bCdEfAbFf".to_vec();
    let id = decode_passthrough(&input).expect("mixed case must decode");
    assert_eq!(id.to_bytes(), sample_bytes());
}

#[test]
fn trailing_line_feed_is_trimmed() {
    let input = b"00010203-0405-0607-0809-0a0bcdefabff\n".to_vec();
    let id = decode_passthrough(&input).expect("text with newline must decode");
    assert_eq!(id.to_bytes(), sample_bytes());
}

#[test]
fn trailing_carriage_return_line_feed_is_trimmed() {
    let input = b"00010203-0405-0607-0809-0a0bcdefabff\r\n".to_vec();
    let id = decode_passthrough(&input).expect("text with crlf must decode");
    assert_eq!(id.to_bytes(), sample_bytes());
}

#[test]
fn uppercase_text_with_line_feed_decodes() {
    let input = b"00010203-0405-0607-0809-0A0BCDEFABFF\n".to_vec();
    let id = decode_passthrough(&input).expect("text with newline must decode");
    assert_eq!(id.to_bytes(), sample_bytes());
}

#[test]
fn trailing_carriage_return_alone_is_not_trimmed() {
    let input = b"00010203-0405-0607-0809-0a0bcdefabff\r".to_vec();
    assert_eq!(decode_passthrough(&input), Err(DecodeError::MalformedIdentifier));
}

#[test]
fn only_one_line_terminator_is_trimmed() {
    let input = b"00010203-0405-0607-0809-0a0bcdefabff\n\n".to_vec();
    assert_eq!(decode_passthrough(&input), Err(DecodeError::MalformedIdentifier));
}

#[test]
fn wrong_length_text_is_malformed() {
    let input = b"00010203-0405-0607-0809".to_vec();
    assert_eq!(decode_passthrough(&input), Err(DecodeError::MalformedIdentifier));
}

#[test]
fn missing_hyphen_is_malformed() {
    let input = b"000102030405-0607-0809-0a0bcdefabff0".to_vec();
    assert_eq!(decode_passthrough(&input), Err(DecodeError::MalformedIdentifier));
}

#[test]
fn non_hex_letter_is_malformed() {
    let input = b"0001020g-0405-0607-0809-0a0bcdefabff".to_vec();
    assert_eq!(decode_passthrough(&input), Err(DecodeError::MalformedIdentifier));
}

#[test]
fn non_utf8_bytes_are_invalid_encoding() {
    let input = vec![0xffu8; 17];
    assert_eq!(decode_passthrough(&input), Err(DecodeError::InvalidEncoding));
}

#[test]
fn utf8_garbage_of_other_length_is_malformed() {
    let input = b"not an identifier at all".to_vec();
    assert_eq!(decode_passthrough(&input), Err(DecodeError::MalformedIdentifier));
}

#[test]
fn empty_input_is_malformed() {
    let input: Vec<u8> = Vec::new();
    assert_eq!(decode_passthrough(&input), Err(DecodeError::MalformedIdentifier));
}
