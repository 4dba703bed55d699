//! Static text provider with optional encryption support.
use crate::crypto::{self, decrypt_outcome, CryptoError, CryptoFailure};
use crate::error::ProviderError;
use crate::provider::PasswordProvider;
use crate::text::{concat_str, has_prefix};
use vstd::prelude::*;

verus! {

/// Provides static text content configured in the config file.
/// Supports optional decryption if `encrypted` is true.
pub struct StaticProvider {
    content: String,
    encrypted: bool,
    encryption_key: Option<String>,
}

/// The text of a decryption failure of the given kind.
pub open spec fn failure_text(f: CryptoFailure, text: Seq<char>) -> bool {
    match f {
        CryptoFailure::InvalidFormat => text == "Invalid encrypted content format"@,
        CryptoFailure::InvalidBase64 => has_prefix(text, "Invalid base64: "@),
        CryptoFailure::EncryptionFailed => text == "Encryption failed"@,
        CryptoFailure::DecryptionFailed => text == "Decryption failed — wrong key or corrupted data"@,
    }
}

/// The prefix of the message of a decryption failure.
pub open spec fn decrypt_failure_prefix() -> Seq<char> {
    "Failed to decrypt content: "@
}

/// `r` is what a static provider answers.
pub open spec fn static_outcome(
    content: Seq<char>,
    encrypted: bool,
    key: Option<Seq<char>>,
    r: Result<String, ProviderError>,
) -> bool {
    if !encrypted {
        r matches Ok(s) && s@ == content
    } else {
        match key {
            None => r matches Err(ProviderError::EncryptionKeyMissing),
            Some(k) => if content.len() == 0 {
                r matches Err(ProviderError::InvalidConfig(m)) && m@
                    == "content is empty for encrypted static binding"@
            } else {
                match decrypt_outcome(content, k) {
                    Ok(p) => r matches Ok(s) && s@ == p,
                    Err(f) => r matches Err(ProviderError::InvalidConfig(m)) && has_prefix(
                        m@,
                        decrypt_failure_prefix(),
                    ) && failure_text(f, m@.skip(decrypt_failure_prefix().len() as int)),
                }
            },
        }
    }
}

impl StaticProvider {
    pub closed spec fn content_view(&self) -> Seq<char> {
        self.content@
    }

    pub closed spec fn is_encrypted(&self) -> bool {
        self.encrypted
    }

    pub closed spec fn key_view(&self) -> Option<Seq<char>> {
        match self.encryption_key {
            Some(k) => Some(k@),
            None => None,
        }
    }

    /// Create a new static provider.
    ///
    /// - `content`: The text content (plaintext or encrypted).
    /// - `encrypted`: Whether the content is encrypted.
    /// - `encryption_key`: The decryption key (required if encrypted).
    pub fn new(content: String, encrypted: bool, encryption_key: Option<String>) -> (r: Self)
        ensures
            r.content_view() == content@,
            r.is_encrypted() == encrypted,
            r.key_view() == match encryption_key {
                Some(k) => Some(k@),
                None => None::<Seq<char>>,
            },
    {
        StaticProvider { content, encrypted, encryption_key }
    }
}

impl PasswordProvider for StaticProvider {
    fn get_password(&self) -> (r: Result<String, ProviderError>)
        ensures
            static_outcome(self.content_view(), self.is_encrypted(), self.key_view(), r),
    {
        if !self.encrypted {
            // Plaintext — return as-is
            return Ok(self.content.clone());
        }
        // Encrypted — need to decrypt
        let key = match &self.encryption_key {
            Some(k) => k,
            None => return Err(ProviderError::EncryptionKeyMissing),
        };
        if self.content.as_str().is_empty() {
            return Err(ProviderError::InvalidConfig("content is empty for encrypted static binding".to_owned()));
        }
        match crypto::decrypt(self.content.as_str(), key.as_str()) {
            Ok(s) => Ok(s),
            Err(e) => {
                let text = e.message();
                let msg = concat_str("Failed to decrypt content: ", text.as_str());
                assert(msg@.take(decrypt_failure_prefix().len() as int) =~= decrypt_failure_prefix());
                assert(msg@.skip(decrypt_failure_prefix().len() as int) =~= text@);
                Err(ProviderError::InvalidConfig(msg))
            },
        }
    }

    fn name(&self) -> (r: &str)
        ensures
            r@ == "static"@,
    {
        "static"
    }
}

} // verus!
