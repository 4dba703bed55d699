use keyflow::error::KeyflowError;
use keyflow::hotkey::keys::{modifiers, Key};
use keyflow::hotkey::macos::{key_to_macos, modifiers_to_macos, MacosHotkeyManager};
use keyflow::hotkey::windows::{key_to_vk, modifiers_to_win, WindowsHotkeyManager};
use std::sync::atomic::Ordering;

#[test]
fn windows_virtual_keys() {
    assert_eq!(key_to_vk(Key::A), 0x41);
    assert_eq!(key_to_vk(Key::Digit0), 0x30);
    assert_eq!(key_to_vk(Key::F7), 0x76);
    assert_eq!(key_to_vk(Key::Space), 0x20);
    assert_eq!(key_to_vk(Key::Minus), 0xbd);
}

#[test]
fn windows_modifier_flags() {
    assert_eq!(modifiers_to_win(modifiers::ALT), 0x1);
    assert_eq!(modifiers_to_win(modifiers::CONTROL), 0x2);
    assert_eq!(modifiers_to_win(modifiers::SHIFT), 0x4);
    assert_eq!(modifiers_to_win(modifiers::SUPER), 0x8);
    assert_eq!(modifiers_to_win(modifiers::ALL_FLAGS), 0xf);
}

#[test]
fn macos_key_codes() {
    assert_eq!(key_to_macos(Key::A), 0x00);
    assert_eq!(key_to_macos(Key::F7), 0x62);
    assert_eq!(key_to_macos(Key::Space), 0x31);
}

#[test]
fn macos_modifier_flags() {
    assert_eq!(modifiers_to_macos(modifiers::SHIFT), 0x20000);
    assert_eq!(modifiers_to_macos(modifiers::CONTROL), 0x40000);
    assert_eq!(modifiers_to_macos(modifiers::ALT), 0x80000);
    assert_eq!(modifiers_to_macos(modifiers::SUPER), 0x100000);
}

#[test]
fn windows_manager_keeps_callbacks_by_id() {
    let mut m: WindowsHotkeyManager<&str> = WindowsHotkeyManager::new().unwrap();
    assert_eq!(m.next_id(), 1);
    m.register("Ctrl+F7", "first").unwrap();
    m.register("F8", "second").unwrap();
    assert_eq!(m.next_id(), 3);
    assert_eq!(m.callback(1), Some(&"first"));
    assert_eq!(m.callback(2), Some(&"second"));
    assert_eq!(m.callback(3), None);
    match m.register("Ctrl+Nope", "third") {
        Err(KeyflowError::HotkeyRegistration { reason, .. }) => {
            assert_eq!(reason, "unknown key name: 'Nope'")
        }
        _ => panic!("expected a parse error"),
    }
    assert_eq!(m.next_id(), 3);
    let flag = m.running_flag();
    flag.store(true, Ordering::SeqCst);
    m.stop();
    assert!(!flag.load(Ordering::SeqCst));
}

#[test]
fn macos_manager_keeps_callbacks_by_id() {
    let mut m: MacosHotkeyManager<u8> = MacosHotkeyManager::new().unwrap();
    m.register("Super+Space", 7).unwrap();
    assert_eq!(m.callback(1), Some(&7));
    assert!(m.register("", 8).is_err());
    assert_eq!(m.next_id(), 2);
    let flag = m.running_flag();
    flag.store(true, Ordering::SeqCst);
    m.stop();
    assert!(!flag.load(Ordering::SeqCst));
}
