use uuid_cli::utf8::is_valid_utf8;

#[test]
fn ascii_is_valid() {
    assert!(is_valid_utf8(&b"plain ascii text".to_vec()));
    assert!(is_valid_utf8(&Vec::new()));
}

#[test]
fn multi_byte_scalars_are_valid() {
    assert!(is_valid_utf8(&"caf\u{e9}".as_bytes().to_vec()));
    assert!(is_valid_utf8(&"\u{20ac}".as_bytes().to_vec()));
    assert!(is_valid_utf8(&"\u{1f600}".as_bytes().to_vec()));
}

#[test]
fn stray_continuation_byte_is_invalid() {
    assert!(!is_valid_utf8(&vec![0x80]));
    assert!(!is_valid_utf8(&vec![0x61, 0xbf, 0x62]));
}

#[test]
fn truncated_sequences_are_invalid() {
    assert!(!is_valid_utf8(&vec![0xc3]));
    assert!(!is_valid_utf8(&vec![0xe2, 0x82]));
    assert!(!is_valid_utf8(&vec![0xf0, 0x9f, 0x98]));
}

#[test]
fn overlong_encodings_are_invalid() {
    assert!(!is_valid_utf8(&vec![0xc0, 0xaf]));
    assert!(!is_valid_utf8(&vec![0xe0, 0x80, 0xaf]));
    assert!(!is_valid_utf8(&vec![0xf0, 0x80, 0x80, 0xaf]));
}

#[test]
fn surrogate_codepoints_are_invalid() {
    assert!(!is_valid_utf8(&vec![0xed, 0xa0, 0x80]));
    assert!(!is_valid_utf8(&vec![0xed, 0xbf, 0xbf]));
}

#[test]
fn codepoints_beyond_unicode_are_invalid() {
    assert!(!is_valid_utf8(&vec![0xf4, 0x90, 0x80, 0x80]));
    assert!(!is_valid_utf8(&vec![0xff]));
}

#[test]
fn agrees_with_the_standard_library() {
    let samples: Vec<Vec<u8>> = vec![
        b"hello".to_vec(),
        vec![0xc3, 0xa9],
        vec![0xc3, 0x28],
        vec![0xe2, 0x82, 0xac],
        vec![0xed, 0x9f, 0xbf],
        vec![0xee, 0x80, 0x80],
        vec![0xf4, 0x8f, 0xbf, 0xbf],
        vec![0xc2, 0x80],
        vec![0xc1, 0xbf],
        vec![0x7f, 0x80],
    ];
    for bytes in samples {
        assert_eq!(is_valid_utf8(&bytes), std::str::from_utf8(&bytes).is_ok());
    }
}
