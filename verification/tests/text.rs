use userutils::bytes_eq;
use userutils::utf8::validate_utf8;

#[test]
fn byte_equality_is_exact() {
    assert!(bytes_eq(b"", b""));
    assert!(bytes_eq(b"abc", b"abc"));
    assert!(!bytes_eq(b"abc", b"abd"));
    assert!(!bytes_eq(b"abc", b"ab"));
    assert!(!bytes_eq(b"", b"a"));
}

#[test]
fn utf8_accepts_well_formed_text() {
    assert!(validate_utf8(b""));
    assert!(validate_utf8(b"hunter2"));
    assert!(validate_utf8("héllo wörld".as_bytes()));
    assert!(validate_utf8("κόσμος".as_bytes()));
    assert!(validate_utf8("日本語".as_bytes()));
    assert!(validate_utf8("🔒🔑".as_bytes()));
    // Highest scalar, and the edges of the three-byte range.
    assert!(validate_utf8(&[0xf4, 0x8f, 0xbf, 0xbf]));
    assert!(validate_utf8(&[0xed, 0x9f, 0xbf]));
    assert!(validate_utf8(&[0xee, 0x80, 0x80]));
}

#[test]
fn utf8_rejects_malformed_bytes() {
    // Stray continuation byte.
    assert!(!validate_utf8(&[0x80]));
    // Overlong encodings.
    assert!(!validate_utf8(&[0xc0, 0x80]));
    assert!(!validate_utf8(&[0xc1, 0xbf]));
    assert!(!validate_utf8(&[0xe0, 0x9f, 0xbf]));
    assert!(!validate_utf8(&[0xf0, 0x8f, 0xbf, 0xbf]));
    // Surrogates.
    assert!(!validate_utf8(&[0xed, 0xa0, 0x80]));
    assert!(!validate_utf8(&[0xed, 0xbf, 0xbf]));
    // Beyond the last scalar.
    assert!(!validate_utf8(&[0xf4, 0x90, 0x80, 0x80]));
    assert!(!validate_utf8(&[0xf5, 0x80, 0x80, 0x80]));
    assert!(!validate_utf8(&[0xff]));
    // Truncated sequences.
    assert!(!validate_utf8(&[0xc3]));
    assert!(!validate_utf8(&[0xe2, 0x82]));
    assert!(!validate_utf8(&[0xf0, 0x9f, 0x94]));
    // A bad tail after a good head.
    assert!(!validate_utf8(&[b'o', b'k', 0xe2, 0x28, 0xa1]));
}

#[test]
fn utf8_agrees_with_the_standard_library() {
    let cases: Vec<Vec<u8>> = vec![
        b"".to_vec(),
        b"plain ascii".to_vec(),
        "déjà vu".as_bytes().to_vec(),
        vec![0xe2, 0x82, 0xac],
        vec![0xe2, 0x82],
        vec![0x2f, 0xc0, 0xae, 0x2e, 0x2f],
        vec![0xed, 0xa0, 0x80, 0xed, 0xbf, 0xbf],
        vec![0xf0, 0x90, 0x80, 0x80],
        vec![0xc2, 0x80, 0xdf, 0xbf],
        vec![0x00, 0x7f, 0x80],
    ];
    for case in cases {
        assert_eq!(
            validate_utf8(&case),
            std::str::from_utf8(&case).is_ok(),
            "disagreement on {:?}",
            case
        );
    }
}
