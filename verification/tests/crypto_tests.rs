use keyflow::crypto::{decrypt, encrypt, is_encrypted, CryptoError};

#[test]
fn test_roundtrip() {
    let passphrase = "test-password-123";
    let plaintext = "my-secret-api-key";

    let encrypted = encrypt(plaintext, passphrase).unwrap();
    assert!(is_encrypted(&encrypted));

    let decrypted = decrypt(&encrypted, passphrase).unwrap();
    assert_eq!(decrypted, plaintext);
}

#[test]
fn test_wrong_password() {
    let encrypted = encrypt("secret", "correct-password").unwrap();
    let result = decrypt(&encrypted, "wrong-password");
    assert!(result.is_err());
}

#[test]
fn test_not_encrypted() {
    assert!(!is_encrypted("plain-text"));
    assert!(!is_encrypted(""));
}

#[test]
fn test_empty_plaintext() {
    let passphrase = "test-key";
    let encrypted = encrypt("", passphrase).unwrap();
    let decrypted = decrypt(&encrypted, passphrase).unwrap();
    assert_eq!(decrypted, "");
}

#[test]
fn test_unicode() {
    let passphrase = "测试密码";
    let plaintext = "中文内容🔑";

    let encrypted = encrypt(plaintext, passphrase).unwrap();
    let decrypted = decrypt(&encrypted, passphrase).unwrap();
    assert_eq!(decrypted, plaintext);
}

#[test]
fn test_invalid_format() {
    let result = decrypt("not-encrypted", "key");
    assert!(matches!(result, Err(CryptoError::InvalidFormat)));
}

#[test]
fn test_corrupted_base64() {
    let result = decrypt("enc:v1:!!!invalid!!!", "key");
    assert!(matches!(result, Err(CryptoError::InvalidBase64(_))));
}
