use type_bridge::token::{encode_base64url, generate_token};

#[test]
fn test_generate_token_length() {
    let t = generate_token().unwrap();
    // 128 bits → 22 base64url chars (no padding)
    assert_eq!(t.len(), 22, "token length: {t}");
}

#[test]
fn test_generate_token_charset() {
    let t = generate_token().unwrap();
    let allowed = |c: char| c.is_ascii_alphanumeric() || c == '-' || c == '_';
    for (i, c) in t.chars().enumerate() {
        assert!(
            allowed(c),
            "unexpected char U+{:04X} at pos {i} in {t:?}",
            c as u32
        );
    }
}

#[test]
fn test_generate_token_unique() {
    let a = generate_token().unwrap();
    let b = generate_token().unwrap();
    // Extremely unlikely to collide with 128 bits of entropy
    assert_ne!(a, b);
}

#[test]
fn test_generate_token_no_equals() {
    let t = generate_token().unwrap();
    assert!(!t.contains('='), "token must not contain padding: {t}");
}

#[test]
fn base64url_known_values() {
    assert_eq!(encode_base64url(b""), "");
    assert_eq!(encode_base64url(b"f"), "Zg");
    assert_eq!(encode_base64url(b"fo"), "Zm8");
    assert_eq!(encode_base64url(b"foo"), "Zm9v");
    assert_eq!(encode_base64url(b"foobar"), "Zm9vYmFy");
    assert_eq!(encode_base64url(&[0xfb, 0xff, 0xbf]), "-_-_");
    assert_eq!(encode_base64url(&[0u8; 16]), "AAAAAAAAAAAAAAAAAAAAAA");
    assert_eq!(encode_base64url(&[0xffu8; 16]), "_____________________w");
}
