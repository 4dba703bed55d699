//! Windows global hotkey logic: virtual-key codes, modifier flags and the
//! registry of hotkey callbacks.
//!
//! Registration with Win32 (RegisterHotKey) and the message loop are left to
//! the application.
use crate::error::KeyflowError;
use crate::hotkey::keys::{modifiers, parse_hotkey, parse_hotkey_spec, Key};
use crate::text::trim;
use std::collections::HashMap;
use std::sync::atomic::{AtomicBool, Ordering};
use std::sync::Arc;
use vstd::prelude::*;

verus! {

broadcast use vstd::std_specs::hash::group_hash_axioms;

/// The Windows virtual-key code of a key.
pub open spec fn windows_vk(key: Key) -> u32 {
    match key {
        Key::A => 0x41,
        Key::B => 0x42,
        Key::C => 0x43,
        Key::D => 0x44,
        Key::E => 0x45,
        Key::F => 0x46,
        Key::G => 0x47,
        Key::H => 0x48,
        Key::I => 0x49,
        Key::J => 0x4a,
        Key::K => 0x4b,
        Key::L => 0x4c,
        Key::M => 0x4d,
        Key::N => 0x4e,
        Key::O => 0x4f,
        Key::P => 0x50,
        Key::Q => 0x51,
        Key::R => 0x52,
        Key::S => 0x53,
        Key::T => 0x54,
        Key::U => 0x55,
        Key::V => 0x56,
        Key::W => 0x57,
        Key::X => 0x58,
        Key::Y => 0x59,
        Key::Z => 0x5a,
        Key::Digit0 => 0x30,
        Key::Digit1 => 0x31,
        Key::Digit2 => 0x32,
        Key::Digit3 => 0x33,
        Key::Digit4 => 0x34,
        Key::Digit5 => 0x35,
        Key::Digit6 => 0x36,
        Key::Digit7 => 0x37,
        Key::Digit8 => 0x38,
        Key::Digit9 => 0x39,
        Key::F1 => 0x70,
        Key::F2 => 0x71,
        Key::F3 => 0x72,
        Key::F4 => 0x73,
        Key::F5 => 0x74,
        Key::F6 => 0x75,
        Key::F7 => 0x76,
        Key::F8 => 0x77,
        Key::F9 => 0x78,
        Key::F10 => 0x79,
        Key::F11 => 0x7a,
        Key::F12 => 0x7b,
        Key::F13 => 0x7c,
        Key::F14 => 0x7d,
        Key::F15 => 0x7e,
        Key::F16 => 0x7f,
        Key::F17 => 0x80,
        Key::F18 => 0x81,
        Key::F19 => 0x82,
        Key::F20 => 0x83,
        Key::F21 => 0x84,
        Key::F22 => 0x85,
        Key::F23 => 0x86,
        Key::F24 => 0x87,
        Key::Home => 0x24,
        Key::End => 0x23,
        Key::PageUp => 0x21,
        Key::PageDown => 0x22,
        Key::Up => 0x26,
        Key::Down => 0x28,
        Key::Left => 0x25,
        Key::Right => 0x27,
        Key::Insert => 0x2d,
        Key::Delete => 0x2e,
        Key::Tab => 0x09,
        Key::Enter => 0x0d,
        Key::Escape => 0x1b,
        Key::Backspace => 0x08,
        Key::Space => 0x20,
        Key::Minus => 0xbd,
        Key::Equal => 0xbb,
        Key::BracketLeft => 0xdb,
        Key::BracketRight => 0xdd,
        Key::Backslash => 0xdc,
        Key::Semicolon => 0xba,
        Key::Apostrophe => 0xde,
        Key::Grave => 0xc0,
        Key::Comma => 0xbc,
        Key::Period => 0xbe,
        Key::Slash => 0xbf,
    }
}

/// Convert a platform-agnostic Key to its Windows Virtual Key code.
pub fn key_to_vk(key: Key) -> (r: u32)
    ensures
        r == windows_vk(key),
{
    match key {
        Key::A => 0x41,
        Key::B => 0x42,
        Key::C => 0x43,
        Key::D => 0x44,
        Key::E => 0x45,
        Key::F => 0x46,
        Key::G => 0x47,
        Key::H => 0x48,
        Key::I => 0x49,
        Key::J => 0x4a,
        Key::K => 0x4b,
        Key::L => 0x4c,
        Key::M => 0x4d,
        Key::N => 0x4e,
        Key::O => 0x4f,
        Key::P => 0x50,
        Key::Q => 0x51,
        Key::R => 0x52,
        Key::S => 0x53,
        Key::T => 0x54,
        Key::U => 0x55,
        Key::V => 0x56,
        Key::W => 0x57,
        Key::X => 0x58,
        Key::Y => 0x59,
        Key::Z => 0x5a,
        Key::Digit0 => 0x30,
        Key::Digit1 => 0x31,
        Key::Digit2 => 0x32,
        Key::Digit3 => 0x33,
        Key::Digit4 => 0x34,
        Key::Digit5 => 0x35,
        Key::Digit6 => 0x36,
        Key::Digit7 => 0x37,
        Key::Digit8 => 0x38,
        Key::Digit9 => 0x39,
        Key::F1 => 0x70,
        Key::F2 => 0x71,
        Key::F3 => 0x72,
        Key::F4 => 0x73,
        Key::F5 => 0x74,
        Key::F6 => 0x75,
        Key::F7 => 0x76,
        Key::F8 => 0x77,
        Key::F9 => 0x78,
        Key::F10 => 0x79,
        Key::F11 => 0x7a,
        Key::F12 => 0x7b,
        Key::F13 => 0x7c,
        Key::F14 => 0x7d,
        Key::F15 => 0x7e,
        Key::F16 => 0x7f,
        Key::F17 => 0x80,
        Key::F18 => 0x81,
        Key::F19 => 0x82,
        Key::F20 => 0x83,
        Key::F21 => 0x84,
        Key::F22 => 0x85,
        Key::F23 => 0x86,
        Key::F24 => 0x87,
        Key::Home => 0x24,
        Key::End => 0x23,
        Key::PageUp => 0x21,
        Key::PageDown => 0x22,
        Key::Up => 0x26,
        Key::Down => 0x28,
        Key::Left => 0x25,
        Key::Right => 0x27,
        Key::Insert => 0x2d,
        Key::Delete => 0x2e,
        Key::Tab => 0x09,
        Key::Enter => 0x0d,
        Key::Escape => 0x1b,
        Key::Backspace => 0x08,
        Key::Space => 0x20,
        Key::Minus => 0xbd,
        Key::Equal => 0xbb,
        Key::BracketLeft => 0xdb,
        Key::BracketRight => 0xdd,
        Key::Backslash => 0xdc,
        Key::Semicolon => 0xba,
        Key::Apostrophe => 0xde,
        Key::Grave => 0xc0,
        Key::Comma => 0xbc,
        Key::Period => 0xbe,
        Key::Slash => 0xbf,
    }
}

/// The key whose Windows virtual-key code is `code`, if any.
pub open spec fn key_with_windows_vk(code: u32) -> Option<Key> {
    if code == 0x41 {
        Some(Key::A)
    } else if code == 0x42 {
        Some(Key::B)
    } else if code == 0x43 {
        Some(Key::C)
    } else if code == 0x44 {
        Some(Key::D)
    } else if code == 0x45 {
        Some(Key::E)
    } else if code == 0x46 {
        Some(Key::F)
    } else if code == 0x47 {
        Some(Key::G)
    } else if code == 0x48 {
        Some(Key::H)
    } else if code == 0x49 {
        Some(Key::I)
    } else if code == 0x4a {
        Some(Key::J)
    } else if code == 0x4b {
        Some(Key::K)
    } else if code == 0x4c {
        Some(Key::L)
    } else if code == 0x4d {
        Some(Key::M)
    } else if code == 0x4e {
        Some(Key::N)
    } else if code == 0x4f {
        Some(Key::O)
    } else if code == 0x50 {
        Some(Key::P)
    } else if code == 0x51 {
        Some(Key::Q)
    } else if code == 0x52 {
        Some(Key::R)
    } else if code == 0x53 {
        Some(Key::S)
    } else if code == 0x54 {
        Some(Key::T)
    } else if code == 0x55 {
        Some(Key::U)
    } else if code == 0x56 {
        Some(Key::V)
    } else if code == 0x57 {
        Some(Key::W)
    } else if code == 0x58 {
        Some(Key::X)
    } else if code == 0x59 {
        Some(Key::Y)
    } else if code == 0x5a {
        Some(Key::Z)
    } else if code == 0x30 {
        Some(Key::Digit0)
    } else if code == 0x31 {
        Some(Key::Digit1)
    } else if code == 0x32 {
        Some(Key::Digit2)
    } else if code == 0x33 {
        Some(Key::Digit3)
    } else if code == 0x34 {
        Some(Key::Digit4)
    } else if code == 0x35 {
        Some(Key::Digit5)
    } else if code == 0x36 {
        Some(Key::Digit6)
    } else if code == 0x37 {
        Some(Key::Digit7)
    } else if code == 0x38 {
        Some(Key::Digit8)
    } else if code == 0x39 {
        Some(Key::Digit9)
    } else if code == 0x70 {
        Some(Key::F1)
    } else if code == 0x71 {
        Some(Key::F2)
    } else if code == 0x72 {
        Some(Key::F3)
    } else if code == 0x73 {
        Some(Key::F4)
    } else if code == 0x74 {
        Some(Key::F5)
    } else if code == 0x75 {
        Some(Key::F6)
    } else if code == 0x76 {
        Some(Key::F7)
    } else if code == 0x77 {
        Some(Key::F8)
    } else if code == 0x78 {
        Some(Key::F9)
    } else if code == 0x79 {
        Some(Key::F10)
    } else if code == 0x7a {
        Some(Key::F11)
    } else if code == 0x7b {
        Some(Key::F12)
    } else if code == 0x7c {
        Some(Key::F13)
    } else if code == 0x7d {
        Some(Key::F14)
    } else if code == 0x7e {
        Some(Key::F15)
    } else if code == 0x7f {
        Some(Key::F16)
    } else if code == 0x80 {
        Some(Key::F17)
    } else if code == 0x81 {
        Some(Key::F18)
    } else if code == 0x82 {
        Some(Key::F19)
    } else if code == 0x83 {
        Some(Key::F20)
    } else if code == 0x84 {
        Some(Key::F21)
    } else if code == 0x85 {
        Some(Key::F22)
    } else if code == 0x86 {
        Some(Key::F23)
    } else if code == 0x87 {
        Some(Key::F24)
    } else if code == 0x24 {
        Some(Key::Home)
    } else if code == 0x23 {
        Some(Key::End)
    } else if code == 0x21 {
        Some(Key::PageUp)
    } else if code == 0x22 {
        Some(Key::PageDown)
    } else if code == 0x26 {
        Some(Key::Up)
    } else if code == 0x28 {
        Some(Key::Down)
    } else if code == 0x25 {
        Some(Key::Left)
    } else if code == 0x27 {
        Some(Key::Right)
    } else if code == 0x2d {
        Some(Key::Insert)
    } else if code == 0x2e {
        Some(Key::Delete)
    } else if code == 0x09 {
        Some(Key::Tab)
    } else if code == 0x0d {
        Some(Key::Enter)
    } else if code == 0x1b {
        Some(Key::Escape)
    } else if code == 0x08 {
        Some(Key::Backspace)
    } else if code == 0x20 {
        Some(Key::Space)
    } else if code == 0xbd {
        Some(Key::Minus)
    } else if code == 0xbb {
        Some(Key::Equal)
    } else if code == 0xdb {
        Some(Key::BracketLeft)
    } else if code == 0xdd {
        Some(Key::BracketRight)
    } else if code == 0xdc {
        Some(Key::Backslash)
    } else if code == 0xba {
        Some(Key::Semicolon)
    } else if code == 0xde {
        Some(Key::Apostrophe)
    } else if code == 0xc0 {
        Some(Key::Grave)
    } else if code == 0xbc {
        Some(Key::Comma)
    } else if code == 0xbe {
        Some(Key::Period)
    } else if code == 0xbf {
        Some(Key::Slash)
    } else {
        None
    }
}

/// Every key is recovered from its virtual-key code, so distinct keys have
/// distinct codes.
pub proof fn lemma_windows_vk_injective(a: Key, b: Key)
    ensures
        key_with_windows_vk(windows_vk(a)) == Some(a),
        windows_vk(a) == windows_vk(b) ==> a == b,
{
    assert(key_with_windows_vk(windows_vk(b)) == Some(b));
}

/// The Windows modifier flags: MOD_SHIFT (0x4), MOD_CONTROL (0x2), MOD_ALT (0x1)
/// and MOD_WIN (0x8).
pub open spec fn windows_modifiers(modifiers: u16) -> u32 {
    (if modifiers & modifiers::SHIFT != 0 { 0x0004u32 } else { 0u32 }) | (if modifiers & modifiers::CONTROL != 0 { 0x0002u32 } else { 0u32 }) | (if modifiers & modifiers::ALT != 0 { 0x0001u32 } else { 0u32 }) | (if modifiers & modifiers::SUPER != 0 { 0x0008u32 } else { 0u32 })
}

/// Convert platform-agnostic modifier flags to Windows modifier flags.
pub fn modifiers_to_win(modifiers: u16) -> (flags: u32)
    ensures
        flags == windows_modifiers(modifiers),
{
    let shift: u32 = if modifiers & modifiers::SHIFT != 0 { 0x0004 } else { 0 };
    let control: u32 = if modifiers & modifiers::CONTROL != 0 { 0x0002 } else { 0 };
    let alt: u32 = if modifiers & modifiers::ALT != 0 { 0x0001 } else { 0 };
    let sup: u32 = if modifiers & modifiers::SUPER != 0 { 0x0008 } else { 0 };
    shift | control | alt | sup
}

/// Each modifier flag sets its own bit: distinct flag sets give distinct
/// masks, and no other bit is ever set.
pub proof fn lemma_windows_modifiers_bits(a: u16, b: u16)
    ensures
        windows_modifiers(a) & !0xfu32 == 0,
        (a & 0xf) != (b & 0xf) ==> windows_modifiers(a) != windows_modifiers(b),
{
    assert(windows_modifiers(a) & !0xfu32 == 0) by (bit_vector);
    assert((a & 0xf) != (b & 0xf) ==> windows_modifiers(a) != windows_modifiers(b)) by (bit_vector);
}

/// Hotkey manager: keeps the callback of each registered hotkey under an id
/// and the flag that keeps its event loop running.
pub struct WindowsHotkeyManager<C> {
    callbacks: HashMap<u32, C>,
    next_id: u32,
    running: Arc<AtomicBool>,
}

impl<C> WindowsHotkeyManager<C> {
    /// The registered callbacks, by id.
    pub closed spec fn callbacks(&self) -> Map<u32, C> {
        self.callbacks@
    }

    /// The id the next registration gets.
    pub closed spec fn next(&self) -> u32 {
        self.next_id
    }

    /// Every registered id is below the next one.
    pub closed spec fn ids_below_next(&self) -> bool {
        &&& 1 <= self.next_id
        &&& forall|id: u32| #[trigger] self.callbacks@.contains_key(id) ==> 1 <= id < self.next_id
    }

    pub fn new() -> (r: Result<Self, KeyflowError>)
        ensures
            r matches Ok(m) && m.callbacks() == Map::<u32, C>::empty() && m.next() == 1
                && m.ids_below_next(),
    {
        Ok(
            WindowsHotkeyManager {
                callbacks: HashMap::new(),
                next_id: 1,
                running: Arc::new(AtomicBool::new(false)),
            },
        )
    }

    /// The id the next registration gets.
    pub fn next_id(&self) -> (r: u32)
        ensures
            r == self.next(),
    {
        self.next_id
    }

    /// Register a hotkey: the string must parse; the callback is kept under
    /// a fresh id.
    pub fn register(&mut self, hotkey: &str, callback: C) -> (r: Result<(), KeyflowError>)
        requires
            old(self).next() < u32::MAX,
        ensures
            match parse_hotkey_spec(hotkey@) {
                Ok(_) => r is Ok && final(self).callbacks() == old(self).callbacks().insert(
                    old(self).next(),
                    callback,
                ) && final(self).next() == old(self).next() + 1,
                Err(reason) => match r {
                    Err(KeyflowError::HotkeyRegistration { hotkey: input, reason: given }) => input@ == trim(
                        hotkey@,
                    ) && given@ == reason && final(self).callbacks() == old(self).callbacks()
                        && final(self).next() == old(self).next(),
                    _ => false,
                },
            },
            old(self).ids_below_next() ==> final(self).ids_below_next(),
    {
        let _combo = match parse_hotkey(hotkey) {
            Ok(c) => c,
            Err(e) => return Err(e),
        };
        let id = self.next_id;
        self.next_id = self.next_id + 1;
        self.callbacks.insert(id, callback);
        assert(old(self).ids_below_next() ==> self.ids_below_next()) by {
            if old(self).ids_below_next() {
                assert forall|k: u32| #[trigger] self.callbacks@.contains_key(k) implies 1 <= k
                    < self.next_id by {
                    if k != id {
                        assert(old(self).callbacks@.contains_key(k));
                    }
                }
            }
        }
        Ok(())
    }

    /// The callback registered under `id`.
    pub fn callback(&self, id: u32) -> (r: Option<&C>)
        ensures
            match r {
                Some(c) => self.callbacks().contains_key(id) && *c == self.callbacks()[id],
                None => !self.callbacks().contains_key(id),
            },
    {
        self.callbacks.get(&id)
    }

    /// Signal the event loop to stop.
    pub fn stop(&self) {
        self.running.store(false, Ordering::Release);
    }

    /// The flag that keeps the event loop running.
    pub closed spec fn flag(&self) -> Arc<AtomicBool> {
        self.running
    }

    /// Get a reference to the running flag (for external stop control): the
    /// manager's own flag, the one that `stop` clears.
    pub fn running_flag(&self) -> (r: Arc<AtomicBool>)
        ensures
            r == self.flag(),
    {
        crate::hotkey::share_flag(&self.running)
    }
}

} // verus!
