use keyflow::config::binding::{Binding, InputMode};
use keyflow::config::{Config, ProviderConfig, Settings};

#[test]
fn test_binding_creation() {
    let binding = Binding {
        name: "test".to_string(),
        hotkey: "F7".to_string(),
        provider: "clipboard".to_string(),
        item_id: None,
        input_mode: InputMode::default(),
        clipboard_clear_after_secs: None,
    };
    assert_eq!(binding.name, "test");
    assert_eq!(binding.hotkey, "F7");
    assert_eq!(binding.provider, "clipboard");
    assert!(binding.item_id.is_none());
    assert_eq!(binding.input_mode, InputMode::Auto);
    assert!(binding.clipboard_clear_after_secs.is_none());
}

#[test]
fn test_binding_with_item_id() {
    let binding = Binding {
        name: "bw-entry".to_string(),
        hotkey: "F8".to_string(),
        provider: "bitwarden".to_string(),
        item_id: Some("abc-123".to_string()),
        input_mode: InputMode::Type,
        clipboard_clear_after_secs: Some(0),
    };
    assert_eq!(binding.item_id.as_deref(), Some("abc-123"));
    assert_eq!(binding.input_mode, InputMode::Type);
    assert_eq!(binding.clipboard_clear_after_secs, Some(0));
}

#[test]
fn test_default_settings() {
    let settings = Settings::default();
    assert_eq!(settings.clipboard_clear_after_secs, 5);
}

fn binding(name: &str, hotkey: &str, provider: &str, item_id: Option<&str>) -> Binding {
    Binding {
        name: name.to_string(),
        hotkey: hotkey.to_string(),
        provider: provider.to_string(),
        item_id: item_id.map(|s| s.to_string()),
        input_mode: InputMode::default(),
        clipboard_clear_after_secs: None,
    }
}

#[test]
fn test_config_find_binding() {
    // The configuration of the original test, written as values:
    // two bindings, F7 "first" (clipboard) and F8 "second" (bitwarden, item "abc").
    let config = Config {
        settings: Settings::default(),
        providers: vec![],
        bindings: vec![
            binding("first", "F7", "clipboard", None),
            binding("second", "F8", "bitwarden", Some("abc")),
        ],
    };
    assert!(config.find_binding("F7").is_some());
    assert_eq!(config.find_binding("F7").unwrap().name, "first");
    assert!(config.find_binding("F8").unwrap().item_id.is_some());
    assert!(config.find_binding("F9").is_none());
}

#[test]
fn find_binding_takes_the_first_match() {
    let config = Config {
        settings: Settings::default(),
        providers: vec![],
        bindings: vec![
            binding("one", "F7", "clipboard", None),
            binding("two", "F7", "clipboard", None),
        ],
    };
    assert_eq!(config.find_binding("F7").unwrap().name, "one");
    assert!(config.find_binding("f7").is_none());
}

#[test]
fn find_provider_takes_the_first_of_its_type() {
    let config = Config {
        settings: Settings::default(),
        providers: vec![
            ProviderConfig { provider_type: "clipboard".to_string(), cli_path: None },
            ProviderConfig { provider_type: "bitwarden".to_string(), cli_path: Some("/a/bw".to_string()) },
            ProviderConfig { provider_type: "bitwarden".to_string(), cli_path: Some("/b/bw".to_string()) },
        ],
        bindings: vec![],
    };
    assert_eq!(config.find_provider("bitwarden").unwrap().cli_path.as_deref(), Some("/a/bw"));
    assert!(config.find_provider("clipboard").unwrap().cli_path.is_none());
    assert!(config.find_provider("static").is_none());
}

#[test]
fn defaults() {
    let c = Config::default();
    assert_eq!(c.settings.clipboard_clear_after_secs, 5);
    assert!(c.settings.bw_session.is_none());
    assert!(c.settings.encryption_key.is_none());
    assert!(c.providers.is_empty());
    assert!(c.bindings.is_empty());
    assert_eq!(keyflow::config::default_clipboard_clear(), 5);
    assert_eq!(InputMode::default(), InputMode::Auto);
}

#[test]
fn binding_clear_delay_overrides_global() {
    let mut b = binding("x", "F7", "clipboard", None);
    assert_eq!(b.clear_after_secs(5), 5);
    b.clipboard_clear_after_secs = Some(3);
    assert_eq!(b.clear_after_secs(5), 3);
    b.clipboard_clear_after_secs = Some(0);
    assert_eq!(b.clear_after_secs(5), 0);
}

#[test]
fn input_mode_names() {
    assert_eq!(InputMode::Auto.name(), "auto");
    assert_eq!(InputMode::Type.name(), "type");
    assert_eq!(InputMode::Paste.name(), "paste");
    assert!(InputMode::Auto.types_characters());
    assert!(InputMode::Type.types_characters());
    assert!(!InputMode::Paste.types_characters());
}

#[test]
fn usable_encryption_key() {
    let mut s = Settings::default();
    assert!(s.usable_encryption_key().is_none());
    s.encryption_key = Some(String::new());
    assert!(s.usable_encryption_key().is_none());
    s.encryption_key = Some("k".to_string());
    assert_eq!(s.usable_encryption_key().as_deref(), Some("k"));
}
