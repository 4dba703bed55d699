//! Password provider abstraction.
pub mod bitwarden;
pub mod cached;
pub mod clipboard;
pub mod static_provider;

use crate::config::ProviderConfig;
use crate::error::ProviderError;
use crate::text::str_eq;
use vstd::prelude::*;

verus! {

/// Trait for password providers.
///
/// Each provider knows how to retrieve a password from its source
/// (clipboard, Bitwarden CLI, etc.).
pub trait PasswordProvider: Send + Sync {
    /// Retrieve the password.
    fn get_password(&self) -> Result<String, ProviderError>;

    /// Retrieve password for a specific item (for providers like Bitwarden).
    /// Default implementation calls get_password(): it answers what that
    /// answers.
    fn get_password_for(&self, _item_id: &str) -> (r: Result<String, ProviderError>)
        default_ensures
            call_ensures(Self::get_password, (self,), r),
    {
        self.get_password()
    }

    /// Human-readable name of this provider.
    fn name(&self) -> &str;
}

/// A boxed provider answers as the provider inside it, so that a
/// `Box<dyn PasswordProvider>` can stand wherever a provider is wanted.
impl<T: PasswordProvider + ?Sized> PasswordProvider for Box<T> {
    fn get_password(&self) -> (r: Result<String, ProviderError>)
        ensures
            call_ensures(T::get_password, (&**self,), r),
    {
        (**self).get_password()
    }

    fn get_password_for(&self, item_id: &str) -> (r: Result<String, ProviderError>)
        ensures
            call_ensures(T::get_password_for, (&**self, item_id), r),
    {
        (**self).get_password_for(item_id)
    }

    fn name(&self) -> (r: &str)
        ensures
            call_ensures(T::name, (&**self,), r),
    {
        (**self).name()
    }
}

/// A provider created from its configuration: the clipboard, or the
/// Bitwarden CLI (whose commands the application runs, see
/// `bitwarden::BitwardenProvider::step`).
pub enum ConfiguredProvider {
    Clipboard(clipboard::ClipboardProvider),
    Bitwarden(bitwarden::BitwardenProvider),
}

impl ConfiguredProvider {
    /// Human-readable name of the provider.
    pub fn name(&self) -> (r: &str)
        ensures
            r@ == match self {
                ConfiguredProvider::Clipboard(_) => "clipboard"@,
                ConfiguredProvider::Bitwarden(_) => "bitwarden"@,
            },
    {
        match self {
            ConfiguredProvider::Clipboard(_) => "clipboard",
            ConfiguredProvider::Bitwarden(_) => "bitwarden",
        }
    }
}

/// Create a provider from its configuration.
/// Returns None for unknown provider types.
pub fn create_provider(config: &ProviderConfig) -> (r: Option<ConfiguredProvider>)
    ensures
        config.provider_type@ == "clipboard"@ ==> r matches Some(ConfiguredProvider::Clipboard(_)),
        config.provider_type@ == "bitwarden"@ ==> (r matches Some(ConfiguredProvider::Bitwarden(b))
            && bitwarden::resolved_cli_path(config.cli_path, b.cli_path_view())),
        config.provider_type@ != "clipboard"@ && config.provider_type@ != "bitwarden"@ ==> r is None,
{
    proof {
        reveal_strlit("clipboard");
        reveal_strlit("bitwarden");
        assert("bitwarden"@[0] != "clipboard"@[0]);
    }
    if str_eq(config.provider_type.as_str(), "clipboard") {
        Some(ConfiguredProvider::Clipboard(clipboard::ClipboardProvider::new()))
    } else if str_eq(config.provider_type.as_str(), "bitwarden") {
        let path = match &config.cli_path {
            Some(p) => Some(p.clone()),
            None => None,
        };
        assert(path == config.cli_path);
        let b = bitwarden::BitwardenProvider::new(path);
        assert(bitwarden::resolved_cli_path(config.cli_path, b.cli_path_view()));
        Some(ConfiguredProvider::Bitwarden(b))
    } else {
        None
    }
}

} // verus!
