//! macOS global hotkey logic: virtual keycodes, modifier flags and the
//! registry of hotkey callbacks.
//!
//! Registration with Carbon (RegisterEventHotKey) and the run loop are left
//! to the application.
use crate::error::KeyflowError;
use crate::hotkey::keys::{modifiers, parse_hotkey, parse_hotkey_spec, Key};
use crate::text::trim;
use std::collections::HashMap;
use std::sync::atomic::{AtomicBool, Ordering};
use std::sync::Arc;
use vstd::prelude::*;

verus! {

broadcast use vstd::std_specs::hash::group_hash_axioms;

/// The macOS virtual keycode of a key (`0xFF` for F21-F24, which macOS lacks).
pub open spec fn macos_keycode(key: Key) -> u32 {
    match key {
        Key::A => 0x00,
        Key::B => 0x0b,
        Key::C => 0x08,
        Key::D => 0x02,
        Key::E => 0x0e,
        Key::F => 0x03,
        Key::G => 0x05,
        Key::H => 0x04,
        Key::I => 0x22,
        Key::J => 0x26,
        Key::K => 0x28,
        Key::L => 0x25,
        Key::M => 0x2e,
        Key::N => 0x2d,
        Key::O => 0x1f,
        Key::P => 0x23,
        Key::Q => 0x0c,
        Key::R => 0x0f,
        Key::S => 0x01,
        Key::T => 0x11,
        Key::U => 0x20,
        Key::V => 0x09,
        Key::W => 0x0d,
        Key::X => 0x07,
        Key::Y => 0x10,
        Key::Z => 0x06,
        Key::Digit0 => 0x1d,
        Key::Digit1 => 0x12,
        Key::Digit2 => 0x13,
        Key::Digit3 => 0x14,
        Key::Digit4 => 0x15,
        Key::Digit5 => 0x17,
        Key::Digit6 => 0x16,
        Key::Digit7 => 0x1a,
        Key::Digit8 => 0x1c,
        Key::Digit9 => 0x19,
        Key::F1 => 0x7a,
        Key::F2 => 0x78,
        Key::F3 => 0x63,
        Key::F4 => 0x76,
        Key::F5 => 0x60,
        Key::F6 => 0x61,
        Key::F7 => 0x62,
        Key::F8 => 0x64,
        Key::F9 => 0x65,
        Key::F10 => 0x6d,
        Key::F11 => 0x67,
        Key::F12 => 0x6f,
        Key::F13 => 0x69,
        Key::F14 => 0x6b,
        Key::F15 => 0x71,
        Key::F16 => 0x6a,
        Key::F17 => 0x40,
        Key::F18 => 0x4f,
        Key::F19 => 0x50,
        Key::F20 => 0x5a,
        Key::F21 => 0xff,
        Key::F22 => 0xff,
        Key::F23 => 0xff,
        Key::F24 => 0xff,
        Key::Home => 0x73,
        Key::End => 0x77,
        Key::PageUp => 0x74,
        Key::PageDown => 0x79,
        Key::Up => 0x7e,
        Key::Down => 0x7d,
        Key::Left => 0x7b,
        Key::Right => 0x7c,
        Key::Insert => 0x72,
        Key::Delete => 0x75,
        Key::Tab => 0x30,
        Key::Enter => 0x24,
        Key::Escape => 0x35,
        Key::Backspace => 0x33,
        Key::Space => 0x31,
        Key::Minus => 0x1b,
        Key::Equal => 0x18,
        Key::BracketLeft => 0x21,
        Key::BracketRight => 0x1e,
        Key::Backslash => 0x2a,
        Key::Semicolon => 0x29,
        Key::Apostrophe => 0x27,
        Key::Grave => 0x32,
        Key::Comma => 0x2b,
        Key::Period => 0x2f,
        Key::Slash => 0x2c,
    }
}

/// Convert a platform-agnostic Key to its macOS CGKeyCode.
pub fn key_to_macos(key: Key) -> (r: u32)
    ensures
        r == macos_keycode(key),
{
    match key {
        Key::A => 0x00,
        Key::B => 0x0b,
        Key::C => 0x08,
        Key::D => 0x02,
        Key::E => 0x0e,
        Key::F => 0x03,
        Key::G => 0x05,
        Key::H => 0x04,
        Key::I => 0x22,
        Key::J => 0x26,
        Key::K => 0x28,
        Key::L => 0x25,
        Key::M => 0x2e,
        Key::N => 0x2d,
        Key::O => 0x1f,
        Key::P => 0x23,
        Key::Q => 0x0c,
        Key::R => 0x0f,
        Key::S => 0x01,
        Key::T => 0x11,
        Key::U => 0x20,
        Key::V => 0x09,
        Key::W => 0x0d,
        Key::X => 0x07,
        Key::Y => 0x10,
        Key::Z => 0x06,
        Key::Digit0 => 0x1d,
        Key::Digit1 => 0x12,
        Key::Digit2 => 0x13,
        Key::Digit3 => 0x14,
        Key::Digit4 => 0x15,
        Key::Digit5 => 0x17,
        Key::Digit6 => 0x16,
        Key::Digit7 => 0x1a,
        Key::Digit8 => 0x1c,
        Key::Digit9 => 0x19,
        Key::F1 => 0x7a,
        Key::F2 => 0x78,
        Key::F3 => 0x63,
        Key::F4 => 0x76,
        Key::F5 => 0x60,
        Key::F6 => 0x61,
        Key::F7 => 0x62,
        Key::F8 => 0x64,
        Key::F9 => 0x65,
        Key::F10 => 0x6d,
        Key::F11 => 0x67,
        Key::F12 => 0x6f,
        Key::F13 => 0x69,
        Key::F14 => 0x6b,
        Key::F15 => 0x71,
        Key::F16 => 0x6a,
        Key::F17 => 0x40,
        Key::F18 => 0x4f,
        Key::F19 => 0x50,
        Key::F20 => 0x5a,
        Key::F21 => 0xff,
        Key::F22 => 0xff,
        Key::F23 => 0xff,
        Key::F24 => 0xff,
        Key::Home => 0x73,
        Key::End => 0x77,
        Key::PageUp => 0x74,
        Key::PageDown => 0x79,
        Key::Up => 0x7e,
        Key::Down => 0x7d,
        Key::Left => 0x7b,
        Key::Right => 0x7c,
        Key::Insert => 0x72,
        Key::Delete => 0x75,
        Key::Tab => 0x30,
        Key::Enter => 0x24,
        Key::Escape => 0x35,
        Key::Backspace => 0x33,
        Key::Space => 0x31,
        Key::Minus => 0x1b,
        Key::Equal => 0x18,
        Key::BracketLeft => 0x21,
        Key::BracketRight => 0x1e,
        Key::Backslash => 0x2a,
        Key::Semicolon => 0x29,
        Key::Apostrophe => 0x27,
        Key::Grave => 0x32,
        Key::Comma => 0x2b,
        Key::Period => 0x2f,
        Key::Slash => 0x2c,
    }
}

/// The key whose macOS keycode is `code`, if any (F21-F24 share the placeholder `0xFF` and are not recovered).
pub open spec fn key_with_macos_keycode(code: u32) -> Option<Key> {
    if code == 0x00 {
        Some(Key::A)
    } else if code == 0x0b {
        Some(Key::B)
    } else if code == 0x08 {
        Some(Key::C)
    } else if code == 0x02 {
        Some(Key::D)
    } else if code == 0x0e {
        Some(Key::E)
    } else if code == 0x03 {
        Some(Key::F)
    } else if code == 0x05 {
        Some(Key::G)
    } else if code == 0x04 {
        Some(Key::H)
    } else if code == 0x22 {
        Some(Key::I)
    } else if code == 0x26 {
        Some(Key::J)
    } else if code == 0x28 {
        Some(Key::K)
    } else if code == 0x25 {
        Some(Key::L)
    } else if code == 0x2e {
        Some(Key::M)
    } else if code == 0x2d {
        Some(Key::N)
    } else if code == 0x1f {
        Some(Key::O)
    } else if code == 0x23 {
        Some(Key::P)
    } else if code == 0x0c {
        Some(Key::Q)
    } else if code == 0x0f {
        Some(Key::R)
    } else if code == 0x01 {
        Some(Key::S)
    } else if code == 0x11 {
        Some(Key::T)
    } else if code == 0x20 {
        Some(Key::U)
    } else if code == 0x09 {
        Some(Key::V)
    } else if code == 0x0d {
        Some(Key::W)
    } else if code == 0x07 {
        Some(Key::X)
    } else if code == 0x10 {
        Some(Key::Y)
    } else if code == 0x06 {
        Some(Key::Z)
    } else if code == 0x1d {
        Some(Key::Digit0)
    } else if code == 0x12 {
        Some(Key::Digit1)
    } else if code == 0x13 {
        Some(Key::Digit2)
    } else if code == 0x14 {
        Some(Key::Digit3)
    } else if code == 0x15 {
        Some(Key::Digit4)
    } else if code == 0x17 {
        Some(Key::Digit5)
    } else if code == 0x16 {
        Some(Key::Digit6)
    } else if code == 0x1a {
        Some(Key::Digit7)
    } else if code == 0x1c {
        Some(Key::Digit8)
    } else if code == 0x19 {
        Some(Key::Digit9)
    } else if code == 0x7a {
        Some(Key::F1)
    } else if code == 0x78 {
        Some(Key::F2)
    } else if code == 0x63 {
        Some(Key::F3)
    } else if code == 0x76 {
        Some(Key::F4)
    } else if code == 0x60 {
        Some(Key::F5)
    } else if code == 0x61 {
        Some(Key::F6)
    } else if code == 0x62 {
        Some(Key::F7)
    } else if code == 0x64 {
        Some(Key::F8)
    } else if code == 0x65 {
        Some(Key::F9)
    } else if code == 0x6d {
        Some(Key::F10)
    } else if code == 0x67 {
        Some(Key::F11)
    } else if code == 0x6f {
        Some(Key::F12)
    } else if code == 0x69 {
        Some(Key::F13)
    } else if code == 0x6b {
        Some(Key::F14)
    } else if code == 0x71 {
        Some(Key::F15)
    } else if code == 0x6a {
        Some(Key::F16)
    } else if code == 0x40 {
        Some(Key::F17)
    } else if code == 0x4f {
        Some(Key::F18)
    } else if code == 0x50 {
        Some(Key::F19)
    } else if code == 0x5a {
        Some(Key::F20)
    } else if code == 0x73 {
        Some(Key::Home)
    } else if code == 0x77 {
        Some(Key::End)
    } else if code == 0x74 {
        Some(Key::PageUp)
    } else if code == 0x79 {
        Some(Key::PageDown)
    } else if code == 0x7e {
        Some(Key::Up)
    } else if code == 0x7d {
        Some(Key::Down)
    } else if code == 0x7b {
        Some(Key::Left)
    } else if code == 0x7c {
        Some(Key::Right)
    } else if code == 0x72 {
        Some(Key::Insert)
    } else if code == 0x75 {
        Some(Key::Delete)
    } else if code == 0x30 {
        Some(Key::Tab)
    } else if code == 0x24 {
        Some(Key::Enter)
    } else if code == 0x35 {
        Some(Key::Escape)
    } else if code == 0x33 {
        Some(Key::Backspace)
    } else if code == 0x31 {
        Some(Key::Space)
    } else if code == 0x1b {
        Some(Key::Minus)
    } else if code == 0x18 {
        Some(Key::Equal)
    } else if code == 0x21 {
        Some(Key::BracketLeft)
    } else if code == 0x1e {
        Some(Key::BracketRight)
    } else if code == 0x2a {
        Some(Key::Backslash)
    } else if code == 0x29 {
        Some(Key::Semicolon)
    } else if code == 0x27 {
        Some(Key::Apostrophe)
    } else if code == 0x32 {
        Some(Key::Grave)
    } else if code == 0x2b {
        Some(Key::Comma)
    } else if code == 0x2f {
        Some(Key::Period)
    } else if code == 0x2c {
        Some(Key::Slash)
    } else {
        None
    }
}

/// The function keys that macOS lacks.
pub open spec fn is_missing_on_macos(k: Key) -> bool {
    k == Key::F21 || k == Key::F22 || k == Key::F23 || k == Key::F24
}

/// Keys other than F21-F24 are recovered from their macOS keycode (so they
/// have distinct keycodes, none of them `0xFF`); F21-F24 all map to `0xFF`.
pub proof fn lemma_macos_keycode_injective(a: Key, b: Key)
    ensures
        !is_missing_on_macos(a) ==> key_with_macos_keycode(macos_keycode(a)) == Some(a),
        !is_missing_on_macos(a) ==> macos_keycode(a) != 0xFF,
        is_missing_on_macos(a) ==> macos_keycode(a) == 0xFF,
        !is_missing_on_macos(a) && !is_missing_on_macos(b) && macos_keycode(a) == macos_keycode(b)
            ==> a == b,
{
    if !is_missing_on_macos(b) {
        assert(key_with_macos_keycode(macos_keycode(b)) == Some(b));
    }
}

/// The macOS event flags: Shift (bit 17), Control (bit 18), Alternate (bit 19)
/// and Command (bit 20).
pub open spec fn macos_modifiers(modifiers: u16) -> u32 {
    (if modifiers & modifiers::SHIFT != 0 { 0x20000u32 } else { 0u32 }) | (if modifiers & modifiers::CONTROL != 0 { 0x40000u32 } else { 0u32 }) | (if modifiers & modifiers::ALT != 0 { 0x80000u32 } else { 0u32 }) | (if modifiers & modifiers::SUPER != 0 { 0x100000u32 } else { 0u32 })
}

/// Convert platform-agnostic modifier flags to macOS modifier flags.
pub fn modifiers_to_macos(modifiers: u16) -> (flags: u32)
    ensures
        flags == macos_modifiers(modifiers),
{
    let shift: u32 = if modifiers & modifiers::SHIFT != 0 { 0x20000 } else { 0 };
    let control: u32 = if modifiers & modifiers::CONTROL != 0 { 0x40000 } else { 0 };
    let alt: u32 = if modifiers & modifiers::ALT != 0 { 0x80000 } else { 0 };
    let sup: u32 = if modifiers & modifiers::SUPER != 0 { 0x100000 } else { 0 };
    shift | control | alt | sup
}

/// Each modifier flag sets its own bit: distinct flag sets give distinct
/// masks, and no other bit is ever set.
pub proof fn lemma_macos_modifiers_bits(a: u16, b: u16)
    ensures
        macos_modifiers(a) & !0x1e0000u32 == 0,
        (a & 0xf) != (b & 0xf) ==> macos_modifiers(a) != macos_modifiers(b),
{
    assert(macos_modifiers(a) & !0x1e0000u32 == 0) by (bit_vector);
    assert((a & 0xf) != (b & 0xf) ==> macos_modifiers(a) != macos_modifiers(b)) by (bit_vector);
}

/// Hotkey manager: keeps the callback of each registered hotkey under an id
/// and the flag that keeps its event loop running.
pub struct MacosHotkeyManager<C> {
    callbacks: HashMap<u32, C>,
    next_id: u32,
    running: Arc<AtomicBool>,
}

impl<C> MacosHotkeyManager<C> {
    /// The registered callbacks, by id.
    pub closed spec fn callbacks(&self) -> Map<u32, C> {
        self.callbacks@
    }

    /// The id the next registration gets.
    pub closed spec fn next(&self) -> u32 {
        self.next_id
    }

    /// Every registered id is below the next one.
    pub closed spec fn ids_below_next(&self) -> bool {
        &&& 1 <= self.next_id
        &&& forall|id: u32| #[trigger] self.callbacks@.contains_key(id) ==> 1 <= id < self.next_id
    }

    pub fn new() -> (r: Result<Self, KeyflowError>)
        ensures
            r matches Ok(m) && m.callbacks() == Map::<u32, C>::empty() && m.next() == 1
                && m.ids_below_next(),
    {
        Ok(
            MacosHotkeyManager {
                callbacks: HashMap::new(),
                next_id: 1,
                running: Arc::new(AtomicBool::new(false)),
            },
        )
    }

    /// The id the next registration gets.
    pub fn next_id(&self) -> (r: u32)
        ensures
            r == self.next(),
    {
        self.next_id
    }

    /// Register a hotkey: the string must parse; the callback is kept under
    /// a fresh id.
    pub fn register(&mut self, hotkey: &str, callback: C) -> (r: Result<(), KeyflowError>)
        requires
            old(self).next() < u32::MAX,
        ensures
            match parse_hotkey_spec(hotkey@) {
                Ok(_) => r is Ok && final(self).callbacks() == old(self).callbacks().insert(
                    old(self).next(),
                    callback,
                ) && final(self).next() == old(self).next() + 1,
                Err(reason) => match r {
                    Err(KeyflowError::HotkeyRegistration { hotkey: input, reason: given }) => input@ == trim(
                        hotkey@,
                    ) && given@ == reason && final(self).callbacks() == old(self).callbacks()
                        && final(self).next() == old(self).next(),
                    _ => false,
                },
            },
            old(self).ids_below_next() ==> final(self).ids_below_next(),
    {
        let _combo = match parse_hotkey(hotkey) {
            Ok(c) => c,
            Err(e) => return Err(e),
        };
        let id = self.next_id;
        self.next_id = self.next_id + 1;
        self.callbacks.insert(id, callback);
        assert(old(self).ids_below_next() ==> self.ids_below_next()) by {
            if old(self).ids_below_next() {
                assert forall|k: u32| #[trigger] self.callbacks@.contains_key(k) implies 1 <= k
                    < self.next_id by {
                    if k != id {
                        assert(old(self).callbacks@.contains_key(k));
                    }
                }
            }
        }
        Ok(())
    }

    /// The callback registered under `id`.
    pub fn callback(&self, id: u32) -> (r: Option<&C>)
        ensures
            match r {
                Some(c) => self.callbacks().contains_key(id) && *c == self.callbacks()[id],
                None => !self.callbacks().contains_key(id),
            },
    {
        self.callbacks.get(&id)
    }

    /// Signal the event loop to stop.
    pub fn stop(&self) {
        self.running.store(false, Ordering::Release);
    }

    /// The flag that keeps the event loop running.
    pub closed spec fn flag(&self) -> Arc<AtomicBool> {
        self.running
    }

    /// Get a reference to the running flag (for external stop control): the
    /// manager's own flag, the one that `stop` clears.
    pub fn running_flag(&self) -> (r: Arc<AtomicBool>)
        ensures
            r == self.flag(),
    {
        crate::hotkey::share_flag(&self.running)
    }
}

} // verus!
