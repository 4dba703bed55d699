use keyflow::crypto;
use keyflow::error::ProviderError;
use keyflow::provider::static_provider::StaticProvider;
use keyflow::provider::PasswordProvider;

#[test]
fn test_plaintext() {
    let provider = StaticProvider::new("hello".to_string(), false, None);
    assert_eq!(provider.get_password().unwrap(), "hello");
}

#[test]
fn test_encrypted_with_key() {
    let key = "test-key";
    let encrypted = crypto::encrypt("secret", key).unwrap();
    let provider = StaticProvider::new(encrypted, true, Some(key.to_string()));
    assert_eq!(provider.get_password().unwrap(), "secret");
}

#[test]
fn test_encrypted_without_key() {
    let provider = StaticProvider::new("enc:v1:xxx".to_string(), true, None);
    assert!(matches!(
        provider.get_password(),
        Err(ProviderError::EncryptionKeyMissing)
    ));
}

#[test]
fn test_encrypted_wrong_key() {
    let encrypted = crypto::encrypt("secret", "correct-key").unwrap();
    let provider = StaticProvider::new(encrypted, true, Some("wrong-key".to_string()));
    assert!(matches!(
        provider.get_password(),
        Err(ProviderError::InvalidConfig(_))
    ));
}

#[test]
fn test_empty_content() {
    let provider = StaticProvider::new("".to_string(), false, None);
    assert_eq!(provider.get_password().unwrap(), "");
}

#[test]
fn test_empty_encrypted_content() {
    let provider = StaticProvider::new("".to_string(), true, Some("key".to_string()));
    assert!(matches!(
        provider.get_password(),
        Err(ProviderError::InvalidConfig(_))
    ));
}

#[test]
fn static_provider_messages_and_name() {
    let p = StaticProvider::new("".to_string(), true, Some("key".to_string()));
    match p.get_password() {
        Err(ProviderError::InvalidConfig(m)) => {
            assert_eq!(m, "content is empty for encrypted static binding")
        }
        _ => panic!("expected InvalidConfig"),
    }
    let p = StaticProvider::new("not-encrypted".to_string(), true, Some("key".to_string()));
    match p.get_password() {
        Err(ProviderError::InvalidConfig(m)) => {
            assert_eq!(m, "Failed to decrypt content: Invalid encrypted content format")
        }
        _ => panic!("expected InvalidConfig"),
    }
    assert_eq!(p.name(), "static");
    // get_password_for falls back to get_password.
    let p = StaticProvider::new("plain".to_string(), false, None);
    assert_eq!(p.get_password_for("any").unwrap(), "plain");
}
