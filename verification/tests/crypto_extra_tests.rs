use base64::Engine;
use keyflow::crypto::{decrypt, encrypt, encrypt_with, is_encrypted, CryptoError};

#[test]
fn fixed_salt_and_nonce_give_a_fixed_text() {
    let salt = [7u8; 16];
    let nonce = [9u8; 12];
    let a = encrypt_with("hello", "pass", &salt, &nonce).unwrap();
    let b = encrypt_with("hello", "pass", &salt, &nonce).unwrap();
    assert_eq!(a, b);
    assert!(a.starts_with("enc:v1:"));
    assert_eq!(decrypt(&a, "pass").unwrap(), "hello");
}

#[test]
fn fresh_salt_each_time() {
    let a = encrypt("same", "key").unwrap();
    let b = encrypt("same", "key").unwrap();
    assert_ne!(a, b);
    assert_eq!(decrypt(&a, "key").unwrap(), "same");
    assert_eq!(decrypt(&b, "key").unwrap(), "same");
}

#[test]
fn short_packed_content_is_invalid_format() {
    // "AAAA" decodes to three bytes, fewer than salt, nonce and tag need.
    let r = decrypt("enc:v1:AAAA", "key");
    assert!(matches!(r, Err(CryptoError::InvalidFormat)));
}

#[test]
fn tampered_ciphertext_fails_to_decrypt() {
    let e = encrypt("payload", "key").unwrap();
    let mut chars: Vec<char> = e.chars().collect();
    let at = 7 + 10;
    chars[at] = if chars[at] == 'A' { 'B' } else { 'A' };
    let tampered: String = chars.into_iter().collect();
    assert!(decrypt(&tampered, "key").is_err());
}

#[test]
fn error_messages() {
    assert_eq!(CryptoError::InvalidFormat.message(), "Invalid encrypted content format");
    assert_eq!(CryptoError::EncryptionFailed.message(), "Encryption failed");
    assert_eq!(
        CryptoError::DecryptionFailed.message(),
        "Decryption failed — wrong key or corrupted data"
    );
    assert_eq!(
        CryptoError::UnsupportedVersion("v2".to_string()).message(),
        "Unsupported encryption version: v2"
    );
    assert_eq!(
        CryptoError::KeyNotConfigured.message(),
        "encryption_key not configured in [settings]"
    );
    match decrypt("enc:v1:!!!", "k") {
        Err(e) => assert!(e.message().starts_with("Invalid base64: ")),
        Ok(_) => panic!("expected an error"),
    }
}

#[test]
fn is_encrypted_needs_the_whole_prefix() {
    assert!(is_encrypted("enc:v1:"));
    assert!(!is_encrypted("enc:v1"));
    assert!(!is_encrypted("ENC:v1:abc"));
}

#[test]
fn encrypted_layout_length() {
    for p in ["", "abc", "中文内容🔑"] {
        let e = encrypt(p, "key").unwrap();
        assert!(e.starts_with("enc:v1:"));
        let bytes = base64::engine::general_purpose::STANDARD.decode(&e[7..]).unwrap();
        assert_eq!(bytes.len(), 16 + 12 + p.len() + 16);
    }
}

#[test]
fn only_canonical_base64_is_accepted() {
    assert!(matches!(decrypt("enc:v1:QR==", "k"), Err(CryptoError::InvalidBase64(_))));
    assert!(matches!(decrypt("enc:v1:QQ", "k"), Err(CryptoError::InvalidBase64(_))));
    assert!(matches!(decrypt("enc:v1:QQ==", "k"), Err(CryptoError::InvalidFormat)));
}
