use keyflow::cli::bind::{added_binding, binding_table, display_width, pad_to_width, removal_message};
use keyflow::cli::encrypt::{encrypt_command, EncryptRefusal};
use keyflow::cli::status::bitwarden_state;
use keyflow::cli::stop_message;
use keyflow::cli::unlock::{confirms_refresh, is_unlocked, session_from_output};
use keyflow::config::binding::{Binding, InputMode};
use keyflow::config::{Config, Settings};
use keyflow::crypto::{decrypt, CryptoError};

#[test]
fn display_width_counts_wide_characters_twice() {
    assert_eq!(display_width(""), 0);
    assert_eq!(display_width("abc"), 3);
    assert_eq!(display_width("中文"), 4);
    assert_eq!(display_width("a中b"), 4);
    assert_eq!(display_width("NAME"), 4);
    assert_eq!(display_width("café"), 4);
    assert_eq!(display_width("한글"), 4);
    assert_eq!(display_width("ｶﾅ"), 2);
    assert_eq!(pad_to_width("é", 3), "é  ");
}

#[test]
fn padding_to_a_width() {
    assert_eq!(pad_to_width("ab", 5), "ab   ");
    assert_eq!(pad_to_width("中", 4), "中  ");
    assert_eq!(pad_to_width("toolong", 3), "toolong");
    assert_eq!(pad_to_width("", 2), "  ");
    assert_eq!(pad_to_width("x", 0), "x");
}

fn b(name: &str, hotkey: &str, provider: &str, mode: InputMode, clear: Option<u64>) -> Binding {
    Binding {
        name: name.to_string(),
        hotkey: hotkey.to_string(),
        provider: provider.to_string(),
        item_id: None,
        input_mode: mode,
        clipboard_clear_after_secs: clear,
    }
}

#[test]
fn empty_binding_list() {
    let config = Config::default();
    assert_eq!(binding_table(&config), vec!["No bindings configured.".to_string()]);
}

#[test]
fn binding_list_table() {
    let mut config = Config::default();
    config.bindings.push(b("vnc", "F7", "clipboard", InputMode::Type, Some(3)));
    config.bindings.push(b("密码", "Ctrl+F8", "bitwarden", InputMode::Paste, None));
    let lines = binding_table(&config);
    assert_eq!(lines.len(), 4);
    assert_eq!(
        lines[0],
        format!("{:<20} {:<18} {:<12} {:<8} {:<8}", "NAME", "HOTKEY", "PROVIDER", "MODE", "CLEAR")
    );
    assert_eq!(lines[1], "-".repeat(70));
    assert_eq!(
        lines[2],
        format!("{:<20} {:<18} {:<12} {:<8} {:<8}", "vnc", "F7", "clipboard", "type", "3s")
    );
    // The CJK name takes four columns, so sixteen spaces follow it.
    assert_eq!(
        lines[3],
        format!("密码{} {:<18} {:<12} {:<8} {:<8}", " ".repeat(16), "Ctrl+F8", "bitwarden", "paste", "5s*")
    );
}

#[test]
fn adding_a_binding() {
    let mut config = Config::default();
    let nb = added_binding("srv".to_string(), "F9".to_string(), "clipboard".to_string(), None);
    assert_eq!(nb.input_mode, InputMode::Auto);
    assert!(nb.clipboard_clear_after_secs.is_none());
    let msg = config.add_binding(nb);
    assert_eq!(msg, "Binding added: srv (F9)");
    assert_eq!(config.bindings.len(), 1);
    assert_eq!(config.find_binding("F9").unwrap().name, "srv");
}

#[test]
fn removing_bindings_by_name() {
    let mut config = Config::default();
    config.bindings.push(b("a", "F1", "clipboard", InputMode::Auto, None));
    config.bindings.push(b("x", "F2", "clipboard", InputMode::Auto, None));
    config.bindings.push(b("a", "F3", "clipboard", InputMode::Auto, None));
    config.bindings.push(b("y", "F4", "clipboard", InputMode::Auto, None));
    assert!(config.remove_bindings_named("a"));
    let names: Vec<&str> = config.bindings.iter().map(|b| b.name.as_str()).collect();
    assert_eq!(names, vec!["x", "y"]);
    assert!(!config.remove_bindings_named("a"));
    assert_eq!(config.bindings.len(), 2);
    assert_eq!(removal_message("a", true), "Binding removed: a");
    assert_eq!(removal_message("a", false), "Binding not found: a");
}

#[test]
fn encrypt_command_outcomes() {
    let mut settings = Settings::default();
    assert!(matches!(encrypt_command(&settings, "x"), Err(EncryptRefusal::KeyNotConfigured)));
    settings.encryption_key = Some(String::new());
    assert!(matches!(encrypt_command(&settings, "x"), Err(EncryptRefusal::KeyNotConfigured)));
    settings.encryption_key = Some("k".to_string());
    assert!(matches!(encrypt_command(&settings, ""), Err(EncryptRefusal::EmptyPlaintext)));
    let e = encrypt_command(&settings, "top secret").unwrap();
    assert!(e.starts_with("enc:v1:"));
    assert_eq!(decrypt(&e, "k").unwrap(), "top secret");
    assert!(matches!(decrypt("plain", "k"), Err(CryptoError::InvalidFormat)));
}

#[test]
fn bitwarden_status_words() {
    assert_eq!(bitwarden_state("{\"status\":\"unlocked\"}"), "unlocked");
    assert_eq!(bitwarden_state("{\"status\":\"locked\"}"), "locked (run: keyflow unlock)");
    assert_eq!(bitwarden_state("{\"status\":\"unauthenticated\"}"), "not logged in");
    assert!(is_unlocked("{\"status\":\"unlocked\"}"));
    assert!(!is_unlocked("{\"status\":\"locked\"}"));
}

#[test]
fn refresh_answers() {
    assert!(confirms_refresh("y\n"));
    assert!(confirms_refresh(" Y "));
    assert!(!confirms_refresh("yes"));
    assert!(!confirms_refresh(""));
    assert!(!confirms_refresh("n"));
}

#[test]
fn sessions_from_unlock_output() {
    assert_eq!(session_from_output("  abc==\n"), Some("abc==".to_string()));
    assert_eq!(session_from_output(" \n"), None);
}

#[test]
fn stop_text() {
    assert_eq!(stop_message(), "To stop the daemon, press Ctrl+C or send SIGTERM.");
}
