use keyflow::config::ProviderConfig;
use keyflow::error::ProviderError;
use keyflow::provider::bitwarden::{BitwardenProvider, BwAction, BwPhase, CommandOutput};
use keyflow::provider::{create_provider, ConfiguredProvider};

fn out(success: bool, stdout: &str, stderr: &str) -> Result<CommandOutput, String> {
    Ok(CommandOutput { success, stdout: stdout.to_string(), stderr: stderr.to_string() })
}

fn provider() -> BitwardenProvider {
    BitwardenProvider::new(Some("/opt/bw".to_string()))
}

#[test]
fn configured_path_is_kept() {
    assert_eq!(provider().cli_path(), "/opt/bw");
    // An empty path means: search; the search ends in some path.
    let p = BitwardenProvider::new(Some(String::new()));
    assert!(!p.cli_path().is_empty());
}

#[test]
fn create_bitwarden_provider() {
    let config = ProviderConfig {
        provider_type: "bitwarden".to_string(),
        cli_path: Some("/x/bw".to_string()),
    };
    match create_provider(&config) {
        Some(ConfiguredProvider::Bitwarden(b)) => assert_eq!(b.cli_path(), "/x/bw"),
        _ => panic!("expected a bitwarden provider"),
    }
    assert_eq!(create_provider(&config).unwrap().name(), "bitwarden");
}

#[test]
fn get_password_without_item_is_locked() {
    assert!(matches!(provider().get_password(), Err(ProviderError::BitwardenLocked)));
}

#[test]
fn first_get_succeeds() {
    let p = provider();
    assert!(matches!(p.start(), BwAction::GetPassword(BwPhase::FirstGet)));
    match p.step(BwPhase::FirstGet, "id1", out(true, "  hunter2 \n", "")) {
        BwAction::Finish(Ok(pw)) => assert_eq!(pw, "hunter2"),
        _ => panic!("expected the password"),
    }
}

#[test]
fn item_not_found() {
    match provider().step(BwPhase::FirstGet, "id1", out(false, "", "Not found. Could not find item")) {
        BwAction::Finish(Err(ProviderError::BitwardenItemNotFound { item_id })) => {
            assert_eq!(item_id, "id1")
        }
        _ => panic!("expected item not found"),
    }
}

#[test]
fn locked_vault_is_unlocked_then_asked_again() {
    let p = provider();
    assert!(matches!(
        p.step(BwPhase::FirstGet, "id1", out(false, "", "Vault is locked.")),
        BwAction::Unlock
    ));
    assert!(matches!(
        p.step(BwPhase::FirstGet, "id1", out(true, "   ", "")),
        BwAction::Unlock
    ));
    match p.step(BwPhase::Unlock, "id1", out(true, "SESSION\n", "")) {
        BwAction::SetSessionAndRetry(s) => assert_eq!(s, "SESSION"),
        _ => panic!("expected a session"),
    }
    assert!(matches!(
        p.step(BwPhase::Unlock, "id1", out(true, "", "")),
        BwAction::GetPassword(BwPhase::SecondGet)
    ));
    match p.step(BwPhase::Unlock, "id1", out(false, "", "Invalid master password.")) {
        BwAction::Finish(Err(ProviderError::BitwardenCliError { stderr })) => {
            assert_eq!(stderr, "Invalid master password.")
        }
        _ => panic!("expected the unlock error"),
    }
    // The second answer is final, even when still locked.
    match p.step(BwPhase::SecondGet, "id1", out(false, "", "Vault is locked.")) {
        BwAction::Finish(Err(ProviderError::BitwardenCliError { stderr })) => {
            assert_eq!(stderr, "Vault is locked.")
        }
        _ => panic!("expected the error"),
    }
}

#[test]
fn other_errors_are_final() {
    match provider().step(BwPhase::FirstGet, "id1", out(false, "", "network down")) {
        BwAction::Finish(Err(ProviderError::BitwardenCliError { stderr })) => {
            assert_eq!(stderr, "network down")
        }
        _ => panic!("expected the error"),
    }
    match provider().step(BwPhase::FirstGet, "id1", Err("No such file".to_string())) {
        BwAction::Finish(Err(ProviderError::BitwardenCliError { stderr })) => {
            assert_eq!(stderr, "Failed to run bw get password: No such file")
        }
        _ => panic!("expected the error"),
    }
    match provider().step(BwPhase::Unlock, "id1", Err("No such file".to_string())) {
        BwAction::Finish(Err(ProviderError::BitwardenCliError { stderr })) => {
            assert_eq!(stderr, "Failed to run bw unlock: No such file")
        }
        _ => panic!("expected the error"),
    }
}

#[test]
fn unlock_signals() {
    assert!(BitwardenProvider::needs_unlock("You are not logged in."));
    assert!(BitwardenProvider::needs_unlock("Vault is locked."));
    assert!(BitwardenProvider::needs_unlock("bw returned empty password"));
    assert!(!BitwardenProvider::needs_unlock("Not found."));
}

#[test]
fn provider_error_messages() {
    assert_eq!(
        ProviderError::BitwardenLocked.message(),
        "Bitwarden is not unlocked. Set BW_PASSWORD env var or run: bw unlock"
    );
    assert_eq!(
        ProviderError::BitwardenItemNotFound { item_id: "x".to_string() }.message(),
        "Bitwarden item not found: x"
    );
    assert_eq!(ProviderError::ClipboardEmpty.message(), "Clipboard is empty");
    assert_eq!(
        ProviderError::BitwardenCliError { stderr: "e".to_string() }.message(),
        "bw command failed: e"
    );
    assert_eq!(
        ProviderError::UnknownProvider { provider_type: "t".to_string() }.message(),
        "Unknown provider type: t"
    );
    assert_eq!(
        ProviderError::InvalidConfig("m".to_string()).message(),
        "Invalid configuration: m"
    );
}

use keyflow::provider::bitwarden::choose_bw_cli;

#[test]
fn search_order_for_the_cli() {
    assert_eq!(choose_bw_cli([true, true, false, false], None), "/usr/bin/bw");
    assert_eq!(choose_bw_cli([false, true, true, true], None), "/usr/local/bin/bw");
    assert_eq!(choose_bw_cli([false, false, true, true], None), "/opt/homebrew/bin/bw");
    assert_eq!(choose_bw_cli([false, false, false, true], None), "/snap/bin/bw");
    assert_eq!(
        choose_bw_cli([false, false, false, false], Some(("/home/u".to_string(), true))),
        "/home/u/.local/bin/bw"
    );
    assert_eq!(
        choose_bw_cli([false, false, false, false], Some(("/home/u/".to_string(), true))),
        "/home/u/.local/bin/bw"
    );
    assert_eq!(
        choose_bw_cli([false, false, false, false], Some(("/home/u".to_string(), false))),
        "bw"
    );
    assert_eq!(choose_bw_cli([false, false, false, false], None), "bw");
}
