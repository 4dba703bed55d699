//! Error types of KeyFlow.
use vstd::prelude::*;

verus! {

/// `std::io::Error`, carried by `KeyflowError::Io`.
#[verifier::external_type_specification]
#[verifier::external_body]
pub struct ExIoError(std::io::Error);

/// `std::path::PathBuf`, carried by `KeyflowError::ConfigNotFound`.
#[verifier::external_type_specification]
#[verifier::external_body]
pub struct ExPathBuf(std::path::PathBuf);

/// `toml::de::Error`, carried by `KeyflowError::ConfigParse`.
#[verifier::external_type_specification]
#[verifier::external_body]
pub struct ExTomlDeError(toml::de::Error);

/// `toml::ser::Error`, carried by `KeyflowError::ConfigWrite`.
#[verifier::external_type_specification]
#[verifier::external_body]
pub struct ExTomlSerError(toml::ser::Error);

/// Top-level KeyFlow error.
#[derive(Debug)]
pub enum KeyflowError {
    ConfigNotFound(std::path::PathBuf),
    ConfigParse(toml::de::Error),
    ConfigWrite(toml::ser::Error),
    HotkeyRegistration { hotkey: String, reason: String },
    Provider(ProviderError),
    Input(InputError),
    Io(std::io::Error),
}

/// Errors from password providers.
#[derive(Debug)]
pub enum ProviderError {
    BitwardenLocked,
    BitwardenItemNotFound { item_id: String },
    ClipboardEmpty,
    ClipboardError(String),
    BitwardenCliError { stderr: String },
    UnknownProvider { provider_type: String },
    EncryptionKeyMissing,
    InvalidConfig(String),
}

/// Errors from input simulation.
#[derive(Debug)]
pub enum InputError {
    KeystrokeFailed(String),
    MousePositionFailed(String),
    ClickFailed(String),
}

/// The user-facing text of a provider error.
pub open spec fn provider_error_text(e: ProviderError) -> Seq<char> {
    match e {
        ProviderError::BitwardenLocked => "Bitwarden is not unlocked. Set BW_PASSWORD env var or run: bw unlock"@,
        ProviderError::BitwardenItemNotFound { item_id } => "Bitwarden item not found: "@ + item_id@,
        ProviderError::ClipboardEmpty => "Clipboard is empty"@,
        ProviderError::ClipboardError(msg) => msg@,
        ProviderError::BitwardenCliError { stderr } => "bw command failed: "@ + stderr@,
        ProviderError::UnknownProvider { provider_type } => "Unknown provider type: "@ + provider_type@,
        ProviderError::EncryptionKeyMissing => "encryption_key not configured in [settings]"@,
        ProviderError::InvalidConfig(msg) => "Invalid configuration: "@ + msg@,
    }
}

/// The user-facing text of an input error.
pub open spec fn input_error_text(e: InputError) -> Seq<char> {
    match e {
        InputError::KeystrokeFailed(msg) => "Failed to simulate keystroke: "@ + msg@,
        InputError::MousePositionFailed(msg) => "Failed to get mouse position: "@ + msg@,
        InputError::ClickFailed(msg) => "Failed to click: "@ + msg@,
    }
}

impl ProviderError {
    /// The message shown to the user for this error.
    pub fn message(&self) -> (r: String)
        ensures
            r@ == provider_error_text(*self),
    {
        match self {
            ProviderError::BitwardenLocked => "Bitwarden is not unlocked. Set BW_PASSWORD env var or run: bw unlock".to_owned(),
            ProviderError::BitwardenItemNotFound { item_id } => crate::text::concat_str("Bitwarden item not found: ", item_id.as_str()),
            ProviderError::ClipboardEmpty => "Clipboard is empty".to_owned(),
            ProviderError::ClipboardError(msg) => msg.clone(),
            ProviderError::BitwardenCliError { stderr } => crate::text::concat_str("bw command failed: ", stderr.as_str()),
            ProviderError::UnknownProvider { provider_type } => crate::text::concat_str("Unknown provider type: ", provider_type.as_str()),
            ProviderError::EncryptionKeyMissing => "encryption_key not configured in [settings]".to_owned(),
            ProviderError::InvalidConfig(msg) => crate::text::concat_str("Invalid configuration: ", msg.as_str()),
        }
    }
}

impl InputError {
    /// The message shown to the user for this error.
    pub fn message(&self) -> (r: String)
        ensures
            r@ == input_error_text(*self),
    {
        match self {
            InputError::KeystrokeFailed(msg) => crate::text::concat_str("Failed to simulate keystroke: ", msg.as_str()),
            InputError::MousePositionFailed(msg) => crate::text::concat_str("Failed to get mouse position: ", msg.as_str()),
            InputError::ClickFailed(msg) => crate::text::concat_str("Failed to click: ", msg.as_str()),
        }
    }
}

} // verus!
