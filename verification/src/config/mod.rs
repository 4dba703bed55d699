//! Configuration of KeyFlow: global settings, providers and bindings.
pub mod binding;

use crate::config::binding::Binding;
use crate::text::str_eq;
use vstd::prelude::*;

verus! {

/// Top-level configuration.
#[derive(Debug, Clone)]
pub struct Config {
    pub settings: Settings,
    pub providers: Vec<ProviderConfig>,
    pub bindings: Vec<Binding>,
}

/// Global settings.
#[derive(Debug, Clone)]
pub struct Settings {
    /// Seconds to wait before clearing clipboard after input. 0 = don't clear.
    pub clipboard_clear_after_secs: u64,
    /// Bitwarden session key for vault access.
    /// Set via `keyflow unlock` or manually from `bw unlock --raw`.
    pub bw_session: Option<String>,
    /// Passphrase for encrypted static content.
    pub encryption_key: Option<String>,
}

/// Configuration of one password provider.
#[derive(Debug, Clone)]
pub struct ProviderConfig {
    /// Provider type ("clipboard" or "bitwarden").
    pub provider_type: String,
    /// Path of the `bw` CLI (bitwarden only); empty or absent means search.
    pub cli_path: Option<String>,
}

/// Default seconds before the clipboard is cleared.
pub fn default_clipboard_clear() -> (r: u64)
    ensures
        r == 5,
{
    5
}

impl Default for Settings {
    fn default() -> (r: Self)
        ensures
            r.clipboard_clear_after_secs == 5,
            r.bw_session is None,
            r.encryption_key is None,
    {
        Settings { clipboard_clear_after_secs: default_clipboard_clear(), bw_session: None, encryption_key: None }
    }
}

impl Default for Config {
    fn default() -> (r: Self)
        ensures
            r.settings.clipboard_clear_after_secs == 5,
            r.settings.bw_session is None,
            r.settings.encryption_key is None,
            r.providers@.len() == 0,
            r.bindings@.len() == 0,
    {
        Config { settings: Settings::default(), providers: Vec::new(), bindings: Vec::new() }
    }
}

/// `i` is the first index in `hotkeys` holding `hotkey`.
pub open spec fn first_index_of(hotkeys: Seq<Seq<char>>, hotkey: Seq<char>, i: int) -> bool {
    &&& 0 <= i < hotkeys.len()
    &&& hotkeys[i] == hotkey
    &&& forall|j: int| 0 <= j < i ==> hotkeys[j] != hotkey
}

/// The hotkeys of the bindings, in order.
pub open spec fn binding_hotkeys(bindings: Seq<Binding>) -> Seq<Seq<char>> {
    bindings.map_values(|b: Binding| b.hotkey@)
}

/// The types of the providers, in order.
pub open spec fn provider_types(providers: Seq<ProviderConfig>) -> Seq<Seq<char>> {
    providers.map_values(|p: ProviderConfig| p.provider_type@)
}

impl Config {
    /// The first configured provider of a type.
    pub open spec fn find_provider_spec(&self, provider_type: Seq<char>) -> Option<ProviderConfig> {
        if provider_types(self.providers@).contains(provider_type) {
            Some(
                self.providers@[choose|i: int|
                    first_index_of(provider_types(self.providers@), provider_type, i)],
            )
        } else {
            None
        }
    }

    /// Find a binding by hotkey name: the first binding whose hotkey is
    /// exactly `hotkey`.
    pub fn find_binding(&self, hotkey: &str) -> (r: Option<&Binding>)
        ensures
            match r {
                Some(b) => exists|i: int|
                    first_index_of(binding_hotkeys(self.bindings@), hotkey@, i) && *b
                        == self.bindings@[i],
                None => !binding_hotkeys(self.bindings@).contains(hotkey@),
            },
    {
        let mut i: usize = 0;
        while i < self.bindings.len()
            invariant
                0 <= i <= self.bindings@.len(),
                forall|j: int| 0 <= j < i ==> self.bindings@[j].hotkey@ != hotkey@,
            decreases self.bindings.len() - i,
        {
            if str_eq(self.bindings[i].hotkey.as_str(), hotkey) {
                assert(first_index_of(binding_hotkeys(self.bindings@), hotkey@, i as int));
                return Some(&self.bindings[i]);
            }
            i = i + 1;
        }
        assert forall|j: int| 0 <= j < binding_hotkeys(self.bindings@).len() implies #[trigger] binding_hotkeys(
            self.bindings@,
        )[j] != hotkey@ by {
            assert(self.bindings@[j].hotkey@ != hotkey@);
        }
        None
    }

    /// Find the configuration of a provider type: the first entry of that
    /// type.
    pub fn find_provider(&self, provider_type: &str) -> (r: Option<&ProviderConfig>)
        ensures
            match r {
                Some(p) => exists|i: int|
                    first_index_of(provider_types(self.providers@), provider_type@, i) && *p
                        == self.providers@[i],
                None => !provider_types(self.providers@).contains(provider_type@),
            },
            match r {
                Some(p) => self.find_provider_spec(provider_type@) == Some(*p),
                None => self.find_provider_spec(provider_type@) is None,
            },
    {
        let mut i: usize = 0;
        while i < self.providers.len()
            invariant
                0 <= i <= self.providers@.len(),
                forall|j: int| 0 <= j < i ==> self.providers@[j].provider_type@ != provider_type@,
            decreases self.providers.len() - i,
        {
            if str_eq(self.providers[i].provider_type.as_str(), provider_type) {
                assert(first_index_of(provider_types(self.providers@), provider_type@, i as int));
                proof {
                    let ts = provider_types(self.providers@);
                    assert(ts[i as int] == provider_type@);
                    let c = choose|k: int| first_index_of(ts, provider_type@, k);
                    assert(first_index_of(ts, provider_type@, c));
                    if c < i {
                        assert(self.providers@[c].provider_type@ != provider_type@);
                    } else if c > i {
                        assert(ts[i as int] != provider_type@);
                    }
                }
                return Some(&self.providers[i]);
            }
            i = i + 1;
        }
        assert forall|j: int| 0 <= j < provider_types(self.providers@).len() implies #[trigger] provider_types(
            self.providers@,
        )[j] != provider_type@ by {
            assert(self.providers@[j].provider_type@ != provider_type@);
        }
        None
    }
}

impl Settings {
    /// The configured encryption key, when it is set and not empty.
    pub fn usable_encryption_key(&self) -> (r: Option<String>)
        ensures
            match r {
                Some(k) => self.encryption_key matches Some(c) && k@ == c@ && c@.len() > 0,
                None => self.encryption_key matches Some(c) ==> c@.len() == 0,
            },
    {
        match &self.encryption_key {
            Some(k) => {
                let chars = crate::text::chars_of(k.as_str());
                if chars.len() > 0 {
                    Some(k.clone())
                } else {
                    None
                }
            },
            None => None,
        }
    }
}

} // verus!
