use transciphering::auth::{to_hex, token_hash};

#[test]
fn test_to_hex_exact() {
    assert_eq!(to_hex(&[]), "");
    assert_eq!(to_hex(&[0x00]), "00");
    assert_eq!(to_hex(&[0xDE, 0xAD, 0xBE, 0xEF]), "deadbeef");
    assert_eq!(to_hex(&[0x01, 0x23, 0x45, 0x67, 0x89, 0xAB, 0xCD, 0xEF]), "0123456789abcdef");
}

#[test]
fn test_token_hash_known_digests() {
    assert_eq!(
        token_hash(&String::new()),
        "e3b0c44298fc1c149afbf4c8996fb92427ae41e4649b934ca495991b7852b855"
    );
    assert_eq!(
        token_hash(&String::from("abc")),
        "ba7816bf8f01cfea414140de5dae2223b00361a396177a9cb410ff61f20015ad"
    );
}

#[test]
fn test_token_hash_distinguishes_tokens() {
    let a = token_hash(&String::from("token-a"));
    let b = token_hash(&String::from("token-b"));
    assert_ne!(a, b);
    assert_eq!(a.len(), 64);
}
