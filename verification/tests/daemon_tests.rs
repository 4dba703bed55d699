use keyflow::config::binding::{Binding, InputMode};
use keyflow::config::{Config, ProviderConfig, Settings};
use keyflow::daemon::{
    binding_setup, provider_config_for, should_clear_clipboard, BindingSetup, Trigger,
    TriggerAction, TriggerEvent,
};
use keyflow::error::{InputError, ProviderError};
use keyflow::provider::ConfiguredProvider;

fn binding(provider: &str, item: Option<&str>, mode: InputMode, clear: Option<u64>) -> Binding {
    Binding {
        name: "b".to_string(),
        hotkey: "F7".to_string(),
        provider: provider.to_string(),
        item_id: item.map(|s| s.to_string()),
        input_mode: mode,
        clipboard_clear_after_secs: clear,
    }
}

fn run(t: &mut Trigger, events: Vec<TriggerEvent>) -> Vec<TriggerAction> {
    let mut actions = Vec::new();
    for e in events {
        assert!(t.accepts(&e));
        actions.push(t.step(e));
    }
    actions
}

#[test]
fn typed_trigger_runs_the_whole_sequence() {
    let b = binding("clipboard", None, InputMode::Auto, None);
    let mut t = Trigger::new(&b, 5);
    assert!(!t.is_done());
    let actions = run(
        &mut t,
        vec![
            TriggerEvent::Pressed,
            TriggerEvent::MousePosition(Ok((10, 20))),
            TriggerEvent::Settled,
            TriggerEvent::Clicked(Ok(())),
            TriggerEvent::Password(Ok("pw".to_string())),
            TriggerEvent::Delivered(Ok(())),
        ],
    );
    assert!(t.is_done());
    assert!(matches!(actions[0], TriggerAction::GetMousePosition));
    assert!(matches!(actions[1], TriggerAction::WaitForModifierRelease));
    assert!(matches!(actions[2], TriggerAction::ClickAt(10, 20)));
    assert!(matches!(actions[3], TriggerAction::FetchPassword(None)));
    assert!(matches!(&actions[4], TriggerAction::TypeText(p) if p == "pw"));
    assert!(matches!(&actions[5], TriggerAction::ScheduleClipboardClear(5, p) if p == "pw"));
}

#[test]
fn pasted_trigger_with_item_and_no_clear() {
    let b = binding("bitwarden", Some("item-1"), InputMode::Paste, Some(0));
    let mut t = Trigger::new(&b, 5);
    let actions = run(
        &mut t,
        vec![
            TriggerEvent::Pressed,
            TriggerEvent::MousePosition(Ok((1, 2))),
            TriggerEvent::Settled,
            TriggerEvent::Clicked(Ok(())),
            TriggerEvent::Password(Ok("secret".to_string())),
            TriggerEvent::Delivered(Ok(())),
        ],
    );
    assert!(matches!(&actions[3], TriggerAction::FetchPassword(Some(id)) if id == "item-1"));
    assert!(matches!(&actions[4], TriggerAction::PasteText(p) if p == "secret"));
    assert!(matches!(actions[5], TriggerAction::Finish));
    assert!(t.is_done());
}

#[test]
fn binding_delay_overrides_the_global_one() {
    let b = binding("clipboard", None, InputMode::Type, Some(3));
    let mut t = Trigger::new(&b, 5);
    let actions = run(
        &mut t,
        vec![
            TriggerEvent::Pressed,
            TriggerEvent::MousePosition(Ok((0, 0))),
            TriggerEvent::Settled,
            TriggerEvent::Clicked(Ok(())),
            TriggerEvent::Password(Ok("x".to_string())),
            TriggerEvent::Delivered(Ok(())),
        ],
    );
    assert!(matches!(&actions[5], TriggerAction::ScheduleClipboardClear(3, _)));
}

#[test]
fn failures_end_the_trigger_with_a_message() {
    let b = binding("clipboard", None, InputMode::Type, None);
    let mut t = Trigger::new(&b, 5);
    t.step(TriggerEvent::Pressed);
    match t.step(TriggerEvent::MousePosition(Err(InputError::MousePositionFailed("no display".to_string())))) {
        TriggerAction::Fail(m) => {
            assert_eq!(m, "Failed to get mouse position: Failed to get mouse position: no display")
        }
        _ => panic!("expected a failure"),
    }
    assert!(t.is_done());
    assert!(!t.accepts(&TriggerEvent::Settled));

    let mut t = Trigger::new(&b, 5);
    run(&mut t, vec![TriggerEvent::Pressed, TriggerEvent::MousePosition(Ok((0, 0))), TriggerEvent::Settled]);
    match t.step(TriggerEvent::Clicked(Err(InputError::ClickFailed("x".to_string())))) {
        TriggerAction::Fail(m) => assert_eq!(m, "Failed to click: Failed to click: x"),
        _ => panic!("expected a failure"),
    }

    let mut t = Trigger::new(&b, 5);
    run(
        &mut t,
        vec![
            TriggerEvent::Pressed,
            TriggerEvent::MousePosition(Ok((0, 0))),
            TriggerEvent::Settled,
            TriggerEvent::Clicked(Ok(())),
        ],
    );
    match t.step(TriggerEvent::Password(Err(ProviderError::ClipboardEmpty))) {
        TriggerAction::Fail(m) => assert_eq!(m, "Failed to get password: Clipboard is empty"),
        _ => panic!("expected a failure"),
    }

    let mut t = Trigger::new(&b, 5);
    run(
        &mut t,
        vec![
            TriggerEvent::Pressed,
            TriggerEvent::MousePosition(Ok((0, 0))),
            TriggerEvent::Settled,
            TriggerEvent::Clicked(Ok(())),
            TriggerEvent::Password(Ok("p".to_string())),
        ],
    );
    match t.step(TriggerEvent::Delivered(Err(InputError::KeystrokeFailed("k".to_string())))) {
        TriggerAction::Fail(m) => {
            assert_eq!(m, "Failed to input text: Failed to simulate keystroke: k")
        }
        _ => panic!("expected a failure"),
    }
}

#[test]
fn events_out_of_turn_are_not_accepted() {
    let b = binding("clipboard", None, InputMode::Type, None);
    let t = Trigger::new(&b, 5);
    assert!(t.accepts(&TriggerEvent::Pressed));
    assert!(!t.accepts(&TriggerEvent::Settled));
    assert!(!t.accepts(&TriggerEvent::Delivered(Ok(()))));
}

#[test]
fn clipboard_is_cleared_only_when_unchanged() {
    assert!(should_clear_clipboard("pw", "pw"));
    assert!(!should_clear_clipboard("copied later", "pw"));
    assert!(!should_clear_clipboard("", "pw"));
}

#[test]
fn provider_configuration_of_a_binding() {
    let config = Config {
        settings: Settings::default(),
        providers: vec![ProviderConfig {
            provider_type: "bitwarden".to_string(),
            cli_path: Some("/bin/bw".to_string()),
        }],
        bindings: vec![],
    };
    let b = binding("bitwarden", Some("i"), InputMode::Type, None);
    let pc = provider_config_for(&config, &b);
    assert_eq!(pc.provider_type, "bitwarden");
    assert_eq!(pc.cli_path.as_deref(), Some("/bin/bw"));
    let c = binding("clipboard", None, InputMode::Type, None);
    let pc = provider_config_for(&config, &c);
    assert_eq!(pc.provider_type, "clipboard");
    assert_eq!(pc.cli_path.as_deref(), Some(""));
}

#[test]
fn bindings_with_unknown_providers_are_skipped() {
    let config = Config::default();
    let mut b = binding("nope", None, InputMode::Type, None);
    b.name = "odd".to_string();
    match binding_setup(&config, &b) {
        BindingSetup::Skip(m) => assert_eq!(m, "Skipping binding 'odd': unknown provider 'nope'"),
        _ => panic!("expected a skip"),
    }
    let c = binding("clipboard", None, InputMode::Type, None);
    assert!(matches!(
        binding_setup(&config, &c),
        BindingSetup::Ready(ConfiguredProvider::Clipboard(_))
    ));
    let w = binding("bitwarden", Some("x"), InputMode::Type, None);
    assert!(matches!(
        binding_setup(&config, &w),
        BindingSetup::Ready(ConfiguredProvider::Bitwarden(_))
    ));
}
