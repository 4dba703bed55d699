use keyflow::error::KeyflowError;
use keyflow::hotkey::dispatch::X11HotkeyTable;
use keyflow::hotkey::keys::{modifiers, Key};
use keyflow::hotkey::linux::{
    build_keymap, detect_lock_modifiers, format_x11_error, grab_requests, key_to_x11_keysym,
    keyboard_mapping_is_complete, modifier_mapping_is_complete, modifiers_to_x11, plan_registration,
    LockModifiers,
};
use std::collections::HashMap;

#[test]
fn keysyms() {
    assert_eq!(key_to_x11_keysym(Key::A), 0x61);
    assert_eq!(key_to_x11_keysym(Key::Digit0), 0x30);
    assert_eq!(key_to_x11_keysym(Key::F7), 0xffc4);
    assert_eq!(key_to_x11_keysym(Key::Space), 0x20);
    assert_eq!(key_to_x11_keysym(Key::Minus), 0x2d);
}

#[test]
fn x11_modifier_masks() {
    assert_eq!(modifiers_to_x11(0), 0);
    assert_eq!(modifiers_to_x11(modifiers::SHIFT), 0x1);
    assert_eq!(modifiers_to_x11(modifiers::CONTROL), 0x4);
    assert_eq!(modifiers_to_x11(modifiers::ALT), 0x8);
    assert_eq!(modifiers_to_x11(modifiers::SUPER), 0x40);
    assert_eq!(modifiers_to_x11(modifiers::ALL_FLAGS), 0x4d);
}

#[test]
fn lock_mask_combinations() {
    let lm = LockModifiers { num_lock: 0x10, caps_lock: 0x2, scroll_lock: 0 };
    assert_eq!(lm.all_lock_masks(), vec![0, 0x10, 0x2, 0x12]);
    let none = LockModifiers { num_lock: 0, caps_lock: 0, scroll_lock: 0 };
    assert_eq!(none.all_lock_masks(), vec![0]);
    let all = LockModifiers { num_lock: 0x10, caps_lock: 0x2, scroll_lock: 0x80 };
    assert_eq!(all.all_lock_masks(), vec![0, 0x10, 0x2, 0x12, 0x80, 0x90, 0x82, 0x92]);
}

#[test]
fn event_state_loses_its_lock_bits() {
    let lm = LockModifiers { num_lock: 0x10, caps_lock: 0x2, scroll_lock: 0x80 };
    assert_eq!(lm.event_modifiers(0x4 | 0x10 | 0x2), 0x4);
    assert_eq!(lm.event_modifiers(0x4 | 0x80), 0x4);
    assert_eq!(lm.event_modifiers(0x5), 0x5);
}

#[test]
fn keymap_from_a_mapping_reply() {
    // Keycodes 8..=10, two keysyms each.
    let keysyms = [0x61, 0x41, 0xffc4, 0, 0x61, 0];
    assert!(keyboard_mapping_is_complete(8, 10, 2, &keysyms));
    assert!(!keyboard_mapping_is_complete(8, 11, 2, &keysyms));
    assert!(!keyboard_mapping_is_complete(9, 8, 2, &keysyms));
    let km = build_keymap(8, 10, 2, &keysyms);
    assert_eq!(km.get(&0x61), Some(&vec![8u8, 10u8]));
    assert_eq!(km.get(&0x41), Some(&vec![8u8]));
    assert_eq!(km.get(&0xffc4), Some(&vec![9u8]));
    assert_eq!(km.get(&0), None);
}

#[test]
fn lock_modifiers_from_the_mappings() {
    // Keycodes 8..=11, one keysym each: Num Lock, Caps Lock, Scroll Lock, 'a'.
    let keysyms = [0xff7f, 0xffe5, 0xff14, 0x61];
    // Eight modifiers, two keycodes each: Lock (1) holds Caps Lock,
    // Mod2 (4) holds Num Lock, Mod5 (7) holds Scroll Lock.
    let mut modmap = [0u8; 16];
    modmap[2] = 9;
    modmap[8] = 8;
    modmap[14] = 10;
    assert!(modifier_mapping_is_complete(&modmap, 2, 8, 1, &keysyms));
    let lm = detect_lock_modifiers(&modmap, 2, 8, 1, &keysyms);
    assert_eq!(lm, LockModifiers { num_lock: 0x10, caps_lock: 0x2, scroll_lock: 0x80 });
    // A keycode outside the keyboard mapping is refused up front.
    let mut bad = modmap;
    bad[0] = 200;
    assert!(!modifier_mapping_is_complete(&bad, 2, 8, 1, &keysyms));
}

#[test]
fn grabs_cover_every_keycode_and_lock_mask() {
    let g = grab_requests(&[8, 10], 0x4, &[0, 0x10]);
    assert_eq!(g, vec![(8, 0x4), (8, 0x14), (10, 0x4), (10, 0x14)]);
}

#[test]
fn registration_plans() {
    let mut keymap: HashMap<u32, Vec<u8>> = HashMap::new();
    keymap.insert(0xffc4, vec![73]);
    let lm = LockModifiers { num_lock: 0x10, caps_lock: 0x2, scroll_lock: 0 };
    let plan = plan_registration("Ctrl+F7", &keymap, &lm).unwrap();
    assert_eq!(plan.keysym, 0xffc4);
    assert_eq!(plan.modifiers, 0x4);
    assert_eq!(plan.keycodes, vec![73]);
    assert_eq!(plan.grabs, vec![(73, 0x4), (73, 0x14), (73, 0x6), (73, 0x16)]);
    match plan_registration("F8", &keymap, &lm) {
        Err(KeyflowError::HotkeyRegistration { hotkey, reason }) => {
            assert_eq!(hotkey, "F8");
            assert_eq!(reason, "keysym 0xFFC5 not found on keyboard");
        }
        _ => panic!("expected a registration error"),
    }
    match plan_registration("Space", &keymap, &lm) {
        Err(KeyflowError::HotkeyRegistration { reason, .. }) => {
            assert_eq!(reason, "keysym 0x0020 not found on keyboard");
        }
        _ => panic!("expected a registration error"),
    }
    assert!(matches!(
        plan_registration("Ctrl+", &keymap, &lm),
        Err(KeyflowError::HotkeyRegistration { .. })
    ));
}

#[test]
fn x11_error_texts() {
    assert_eq!(
        format_x11_error("grab_key", "X11Error { error_kind: Access }"),
        "grab_key failed: hotkey already grabbed by another application"
    );
    assert_eq!(
        format_x11_error("grab_key", "Value error"),
        "grab_key failed: invalid keycode or modifier"
    );
    assert_eq!(
        format_x11_error("grab_key", "BadMatch"),
        "grab_key failed: incompatible configuration"
    );
    assert_eq!(format_x11_error("flush", "broken pipe"), "flush failed: broken pipe");
}

#[test]
fn a_bound_hotkey_fires_under_any_lock_state() {
    let lm = LockModifiers { num_lock: 0x10, caps_lock: 0x2, scroll_lock: 0x80 };
    let mut keymap: HashMap<u32, Vec<u8>> = HashMap::new();
    keymap.insert(0x61, vec![38, 200]);
    let plan = plan_registration("Ctrl+A", &keymap, &lm).unwrap();
    let mut table: X11HotkeyTable<&str> = X11HotkeyTable::new(lm);
    table.bind(&plan, "ctrl-a");
    for state in [0x4u16, 0x14, 0x6, 0x84, 0x96] {
        assert_eq!(table.callback_for(38, state), Some(&"ctrl-a"));
        assert_eq!(table.callback_for(200, state), Some(&"ctrl-a"));
    }
    // Other modifiers or keycodes do not fire it.
    assert_eq!(table.callback_for(38, 0x0), None);
    assert_eq!(table.callback_for(38, 0x5), None);
    assert_eq!(table.callback_for(39, 0x4), None);
}

#[test]
fn a_later_binding_replaces_an_earlier_one_for_the_same_keys() {
    let lm = LockModifiers { num_lock: 0x10, caps_lock: 0, scroll_lock: 0 };
    let mut keymap: HashMap<u32, Vec<u8>> = HashMap::new();
    keymap.insert(0xffc4, vec![73]);
    keymap.insert(0xffc5, vec![74]);
    let mut table: X11HotkeyTable<u32> = X11HotkeyTable::new(lm);
    table.bind(&plan_registration("F7", &keymap, &lm).unwrap(), 1);
    table.bind(&plan_registration("F8", &keymap, &lm).unwrap(), 2);
    table.bind(&plan_registration("f7", &keymap, &lm).unwrap(), 3);
    assert_eq!(table.callback_for(73, 0x10), Some(&3));
    assert_eq!(table.callback_for(74, 0), Some(&2));
}
