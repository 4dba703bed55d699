//! The `encrypt` command: encrypt text for use in static bindings.
use crate::config::Settings;
use crate::crypto::{self, decrypt_outcome, encryptable, prefix, CryptoError, CryptoFailure};
use crate::text::{chars_of, has_prefix};
use vstd::prelude::*;

verus! {

/// Why the `encrypt` command produced nothing.
#[derive(Debug)]
pub enum EncryptRefusal {
    /// `[settings]` holds no usable `encryption_key`.
    KeyNotConfigured,
    /// There is nothing to encrypt.
    EmptyPlaintext,
    /// Encryption itself failed.
    Failed(CryptoError),
}

/// The key the command encrypts with: the configured one, when it is set and
/// not empty.
pub open spec fn command_key(settings: Settings) -> Option<Seq<char>> {
    match settings.encryption_key {
        Some(k) => if k@.len() > 0 {
            Some(k@)
        } else {
            None
        },
        None => None,
    }
}

/// Encrypt `text` (the argument, or standard input without surrounding
/// white space) with the configured key.
pub fn encrypt_command(settings: &Settings, text: &str) -> (r: Result<String, EncryptRefusal>)
    ensures
        match command_key(*settings) {
            None => r matches Err(EncryptRefusal::KeyNotConfigured),
            Some(k) => if text@.len() == 0 {
                r matches Err(EncryptRefusal::EmptyPlaintext)
            } else {
                (r is Ok <==> encryptable(text@, k)) && match r {
                    Ok(e) => has_prefix(e@, prefix()) && decrypt_outcome(e@, k) == Ok::<
                        Seq<char>,
                        CryptoFailure,
                    >(text@),
                    Err(e) => e matches EncryptRefusal::Failed(CryptoError::EncryptionFailed),
                }
            },
        },
{
    let key = match settings.usable_encryption_key() {
        Some(k) => k,
        None => return Err(EncryptRefusal::KeyNotConfigured),
    };
    let chars = chars_of(text);
    if chars.len() == 0 {
        return Err(EncryptRefusal::EmptyPlaintext);
    }
    match crypto::encrypt(text, key.as_str()) {
        Ok(e) => Ok(e),
        Err(e) => Err(EncryptRefusal::Failed(e)),
    }
}

} // verus!
