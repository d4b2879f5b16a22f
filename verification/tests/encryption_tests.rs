use sra_core::encryption::{decrypt_string, encrypt_string};

#[test]
fn test_encrypt_decrypt() {
    let original = "test_password_123";
    let encrypted = encrypt_string(original).unwrap();
    let decrypted = decrypt_string(&encrypted).unwrap();
    assert_eq!(original, decrypted);
}

#[test]
fn test_empty_string() {
    let encrypted = encrypt_string("").unwrap();
    assert_eq!(encrypted, "");
    let decrypted = decrypt_string("").unwrap();
    assert_eq!(decrypted, "");
}

#[test]
fn encoding_is_standard_base64() {
    // Exact expected values pin the encoding down: the stored form really
    // is padded standard Base64 of the UTF-8 bytes.
    assert_eq!(encrypt_string("test").unwrap(), "dGVzdA==");
    assert_eq!(encrypt_string("ab").unwrap(), "YWI=");
}

#[test]
fn decoding_accepts_exactly_canonical_text() {
    assert_eq!(decrypt_string("dGVzdA==").unwrap(), "test");
    assert!(decrypt_string("not base64!").is_err());
    // Missing padding is not canonical for the strict engine.
    assert!(decrypt_string("dGVzdA").is_err());
    // Valid Base64 of bytes that are not UTF-8 is rejected too.
    assert!(decrypt_string("/w==").is_err());
}

#[test]
fn round_trip_keeps_unicode_text() {
    let original = "密码 with spaces";
    let encrypted = encrypt_string(original).unwrap();
    assert_ne!(encrypted, original);
    assert_eq!(decrypt_string(&encrypted).unwrap(), original);
}
