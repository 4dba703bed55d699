//! X11 hotkey logic: keysyms, modifier masks, the keyboard map and the
//! lock-modifier handling that the Linux hotkey manager relies on.
//!
//! The X connection itself (grabbing keys, reading events) is driven by the
//! application; everything it decides is computed here.
use crate::error::KeyflowError;
use crate::hotkey::keys::{modifiers, parse_hotkey, parse_hotkey_spec, Key};
use crate::text::{concat_str, contains, hex_padded, hex_upper, str_contains, trim, zero_padded};
use std::collections::HashMap;
use vstd::prelude::*;
use vstd::slice::slice_to_vec;

verus! {

broadcast use vstd::std_specs::hash::group_hash_axioms;

/// The X11 keysym of a key (lower-case letters).
pub open spec fn x11_keysym(key: Key) -> u32 {
    match key {
        Key::A => 0x61,
        Key::B => 0x62,
        Key::C => 0x63,
        Key::D => 0x64,
        Key::E => 0x65,
        Key::F => 0x66,
        Key::G => 0x67,
        Key::H => 0x68,
        Key::I => 0x69,
        Key::J => 0x6a,
        Key::K => 0x6b,
        Key::L => 0x6c,
        Key::M => 0x6d,
        Key::N => 0x6e,
        Key::O => 0x6f,
        Key::P => 0x70,
        Key::Q => 0x71,
        Key::R => 0x72,
        Key::S => 0x73,
        Key::T => 0x74,
        Key::U => 0x75,
        Key::V => 0x76,
        Key::W => 0x77,
        Key::X => 0x78,
        Key::Y => 0x79,
        Key::Z => 0x7a,
        Key::Digit0 => 0x30,
        Key::Digit1 => 0x31,
        Key::Digit2 => 0x32,
        Key::Digit3 => 0x33,
        Key::Digit4 => 0x34,
        Key::Digit5 => 0x35,
        Key::Digit6 => 0x36,
        Key::Digit7 => 0x37,
        Key::Digit8 => 0x38,
        Key::Digit9 => 0x39,
        Key::F1 => 0xffbe,
        Key::F2 => 0xffbf,
        Key::F3 => 0xffc0,
        Key::F4 => 0xffc1,
        Key::F5 => 0xffc2,
        Key::F6 => 0xffc3,
        Key::F7 => 0xffc4,
        Key::F8 => 0xffc5,
        Key::F9 => 0xffc6,
        Key::F10 => 0xffc7,
        Key::F11 => 0xffc8,
        Key::F12 => 0xffc9,
        Key::F13 => 0xffca,
        Key::F14 => 0xffcb,
        Key::F15 => 0xffcc,
        Key::F16 => 0xffcd,
        Key::F17 => 0xffce,
        Key::F18 => 0xffcf,
        Key::F19 => 0xffd0,
        Key::F20 => 0xffd1,
        Key::F21 => 0xffd2,
        Key::F22 => 0xffd3,
        Key::F23 => 0xffd4,
        Key::F24 => 0xffd5,
        Key::Home => 0xff50,
        Key::End => 0xff57,
        Key::PageUp => 0xff55,
        Key::PageDown => 0xff56,
        Key::Up => 0xff52,
        Key::Down => 0xff54,
        Key::Left => 0xff51,
        Key::Right => 0xff53,
        Key::Insert => 0xff63,
        Key::Delete => 0xffff,
        Key::Tab => 0xff09,
        Key::Enter => 0xff0d,
        Key::Escape => 0xff1b,
        Key::Backspace => 0xff08,
        Key::Space => 0x0020,
        Key::Minus => 0x002d,
        Key::Equal => 0x003d,
        Key::BracketLeft => 0x005b,
        Key::BracketRight => 0x005d,
        Key::Backslash => 0x005c,
        Key::Semicolon => 0x003b,
        Key::Apostrophe => 0x0027,
        Key::Grave => 0x0060,
        Key::Comma => 0x002c,
        Key::Period => 0x002e,
        Key::Slash => 0x002f,
    }
}

/// Convert a platform-agnostic Key to its X11 keysym value.
pub fn key_to_x11_keysym(key: Key) -> (r: u32)
    ensures
        r == x11_keysym(key),
{
    match key {
        Key::A => 0x61,
        Key::B => 0x62,
        Key::C => 0x63,
        Key::D => 0x64,
        Key::E => 0x65,
        Key::F => 0x66,
        Key::G => 0x67,
        Key::H => 0x68,
        Key::I => 0x69,
        Key::J => 0x6a,
        Key::K => 0x6b,
        Key::L => 0x6c,
        Key::M => 0x6d,
        Key::N => 0x6e,
        Key::O => 0x6f,
        Key::P => 0x70,
        Key::Q => 0x71,
        Key::R => 0x72,
        Key::S => 0x73,
        Key::T => 0x74,
        Key::U => 0x75,
        Key::V => 0x76,
        Key::W => 0x77,
        Key::X => 0x78,
        Key::Y => 0x79,
        Key::Z => 0x7a,
        Key::Digit0 => 0x30,
        Key::Digit1 => 0x31,
        Key::Digit2 => 0x32,
        Key::Digit3 => 0x33,
        Key::Digit4 => 0x34,
        Key::Digit5 => 0x35,
        Key::Digit6 => 0x36,
        Key::Digit7 => 0x37,
        Key::Digit8 => 0x38,
        Key::Digit9 => 0x39,
        Key::F1 => 0xffbe,
        Key::F2 => 0xffbf,
        Key::F3 => 0xffc0,
        Key::F4 => 0xffc1,
        Key::F5 => 0xffc2,
        Key::F6 => 0xffc3,
        Key::F7 => 0xffc4,
        Key::F8 => 0xffc5,
        Key::F9 => 0xffc6,
        Key::F10 => 0xffc7,
        Key::F11 => 0xffc8,
        Key::F12 => 0xffc9,
        Key::F13 => 0xffca,
        Key::F14 => 0xffcb,
        Key::F15 => 0xffcc,
        Key::F16 => 0xffcd,
        Key::F17 => 0xffce,
        Key::F18 => 0xffcf,
        Key::F19 => 0xffd0,
        Key::F20 => 0xffd1,
        Key::F21 => 0xffd2,
        Key::F22 => 0xffd3,
        Key::F23 => 0xffd4,
        Key::F24 => 0xffd5,
        Key::Home => 0xff50,
        Key::End => 0xff57,
        Key::PageUp => 0xff55,
        Key::PageDown => 0xff56,
        Key::Up => 0xff52,
        Key::Down => 0xff54,
        Key::Left => 0xff51,
        Key::Right => 0xff53,
        Key::Insert => 0xff63,
        Key::Delete => 0xffff,
        Key::Tab => 0xff09,
        Key::Enter => 0xff0d,
        Key::Escape => 0xff1b,
        Key::Backspace => 0xff08,
        Key::Space => 0x0020,
        Key::Minus => 0x002d,
        Key::Equal => 0x003d,
        Key::BracketLeft => 0x005b,
        Key::BracketRight => 0x005d,
        Key::Backslash => 0x005c,
        Key::Semicolon => 0x003b,
        Key::Apostrophe => 0x0027,
        Key::Grave => 0x0060,
        Key::Comma => 0x002c,
        Key::Period => 0x002e,
        Key::Slash => 0x002f,
    }
}

/// The key whose X11 keysym is `code`, if any.
pub open spec fn key_with_x11_keysym(code: u32) -> Option<Key> {
    if code == 0x61 {
        Some(Key::A)
    } else if code == 0x62 {
        Some(Key::B)
    } else if code == 0x63 {
        Some(Key::C)
    } else if code == 0x64 {
        Some(Key::D)
    } else if code == 0x65 {
        Some(Key::E)
    } else if code == 0x66 {
        Some(Key::F)
    } else if code == 0x67 {
        Some(Key::G)
    } else if code == 0x68 {
        Some(Key::H)
    } else if code == 0x69 {
        Some(Key::I)
    } else if code == 0x6a {
        Some(Key::J)
    } else if code == 0x6b {
        Some(Key::K)
    } else if code == 0x6c {
        Some(Key::L)
    } else if code == 0x6d {
        Some(Key::M)
    } else if code == 0x6e {
        Some(Key::N)
    } else if code == 0x6f {
        Some(Key::O)
    } else if code == 0x70 {
        Some(Key::P)
    } else if code == 0x71 {
        Some(Key::Q)
    } else if code == 0x72 {
        Some(Key::R)
    } else if code == 0x73 {
        Some(Key::S)
    } else if code == 0x74 {
        Some(Key::T)
    } else if code == 0x75 {
        Some(Key::U)
    } else if code == 0x76 {
        Some(Key::V)
    } else if code == 0x77 {
        Some(Key::W)
    } else if code == 0x78 {
        Some(Key::X)
    } else if code == 0x79 {
        Some(Key::Y)
    } else if code == 0x7a {
        Some(Key::Z)
    } else if code == 0x30 {
        Some(Key::Digit0)
    } else if code == 0x31 {
        Some(Key::Digit1)
    } else if code == 0x32 {
        Some(Key::Digit2)
    } else if code == 0x33 {
        Some(Key::Digit3)
    } else if code == 0x34 {
        Some(Key::Digit4)
    } else if code == 0x35 {
        Some(Key::Digit5)
    } else if code == 0x36 {
        Some(Key::Digit6)
    } else if code == 0x37 {
        Some(Key::Digit7)
    } else if code == 0x38 {
        Some(Key::Digit8)
    } else if code == 0x39 {
        Some(Key::Digit9)
    } else if code == 0xffbe {
        Some(Key::F1)
    } else if code == 0xffbf {
        Some(Key::F2)
    } else if code == 0xffc0 {
        Some(Key::F3)
    } else if code == 0xffc1 {
        Some(Key::F4)
    } else if code == 0xffc2 {
        Some(Key::F5)
    } else if code == 0xffc3 {
        Some(Key::F6)
    } else if code == 0xffc4 {
        Some(Key::F7)
    } else if code == 0xffc5 {
        Some(Key::F8)
    } else if code == 0xffc6 {
        Some(Key::F9)
    } else if code == 0xffc7 {
        Some(Key::F10)
    } else if code == 0xffc8 {
        Some(Key::F11)
    } else if code == 0xffc9 {
        Some(Key::F12)
    } else if code == 0xffca {
        Some(Key::F13)
    } else if code == 0xffcb {
        Some(Key::F14)
    } else if code == 0xffcc {
        Some(Key::F15)
    } else if code == 0xffcd {
        Some(Key::F16)
    } else if code == 0xffce {
        Some(Key::F17)
    } else if code == 0xffcf {
        Some(Key::F18)
    } else if code == 0xffd0 {
        Some(Key::F19)
    } else if code == 0xffd1 {
        Some(Key::F20)
    } else if code == 0xffd2 {
        Some(Key::F21)
    } else if code == 0xffd3 {
        Some(Key::F22)
    } else if code == 0xffd4 {
        Some(Key::F23)
    } else if code == 0xffd5 {
        Some(Key::F24)
    } else if code == 0xff50 {
        Some(Key::Home)
    } else if code == 0xff57 {
        Some(Key::End)
    } else if code == 0xff55 {
        Some(Key::PageUp)
    } else if code == 0xff56 {
        Some(Key::PageDown)
    } else if code == 0xff52 {
        Some(Key::Up)
    } else if code == 0xff54 {
        Some(Key::Down)
    } else if code == 0xff51 {
        Some(Key::Left)
    } else if code == 0xff53 {
        Some(Key::Right)
    } else if code == 0xff63 {
        Some(Key::Insert)
    } else if code == 0xffff {
        Some(Key::Delete)
    } else if code == 0xff09 {
        Some(Key::Tab)
    } else if code == 0xff0d {
        Some(Key::Enter)
    } else if code == 0xff1b {
        Some(Key::Escape)
    } else if code == 0xff08 {
        Some(Key::Backspace)
    } else if code == 0x0020 {
        Some(Key::Space)
    } else if code == 0x002d {
        Some(Key::Minus)
    } else if code == 0x003d {
        Some(Key::Equal)
    } else if code == 0x005b {
        Some(Key::BracketLeft)
    } else if code == 0x005d {
        Some(Key::BracketRight)
    } else if code == 0x005c {
        Some(Key::Backslash)
    } else if code == 0x003b {
        Some(Key::Semicolon)
    } else if code == 0x0027 {
        Some(Key::Apostrophe)
    } else if code == 0x0060 {
        Some(Key::Grave)
    } else if code == 0x002c {
        Some(Key::Comma)
    } else if code == 0x002e {
        Some(Key::Period)
    } else if code == 0x002f {
        Some(Key::Slash)
    } else {
        None
    }
}

/// Every key is recovered from its X11 keysym, so distinct keys have distinct
/// keysyms.
pub proof fn lemma_x11_keysym_injective(a: Key, b: Key)
    ensures
        key_with_x11_keysym(x11_keysym(a)) == Some(a),
        x11_keysym(a) == x11_keysym(b) ==> a == b,
{
    assert(key_with_x11_keysym(x11_keysym(b)) == Some(b));
}

/// The X11 modifier mask for platform-agnostic modifier flags: Shift is
/// ShiftMask (bit 0), Control is ControlMask (bit 2), Alt is Mod1Mask (bit 3)
/// and Super is Mod4Mask (bit 6).
pub open spec fn x11_modifiers(modifiers: u16) -> u16 {
    (if modifiers & modifiers::SHIFT != 0 { 1u16 } else { 0u16 }) | (if modifiers
        & modifiers::CONTROL != 0 {
        4u16
    } else {
        0u16
    }) | (if modifiers & modifiers::ALT != 0 { 8u16 } else { 0u16 }) | (if modifiers
        & modifiers::SUPER != 0 {
        64u16
    } else {
        0u16
    })
}

/// Convert platform-agnostic modifier flags to X11 modifier mask.
pub fn modifiers_to_x11(modifiers: u16) -> (mask: u16)
    ensures
        mask == x11_modifiers(modifiers),
{
    let shift: u16 = if modifiers & modifiers::SHIFT != 0 { 1 } else { 0 };  // ShiftMask (bit 0)
    let control: u16 = if modifiers & modifiers::CONTROL != 0 { 4 } else { 0 };  // ControlMask (bit 2)
    let alt: u16 = if modifiers & modifiers::ALT != 0 { 8 } else { 0 };  // Mod1Mask (bit 3)
    let sup: u16 = if modifiers & modifiers::SUPER != 0 { 64 } else { 0 };  // Mod4Mask (bit 6)
    shift | control | alt | sup
}

/// The X11 mask uses only ShiftMask, ControlMask, Mod1Mask and Mod4Mask, and
/// each modifier flag sets its own bit: distinct flag sets give distinct
/// masks.
pub proof fn lemma_x11_modifiers_bits(a: u16, b: u16)
    ensures
        x11_modifiers(a) & !0x4du16 == 0,
        (a & 0xf) != (b & 0xf) ==> x11_modifiers(a) != x11_modifiers(b),
{
    assert(x11_modifiers(a) & !0x4du16 == 0) by (bit_vector);
    assert((a & 0xf) != (b & 0xf) ==> x11_modifiers(a) != x11_modifiers(b)) by (bit_vector);
}

/// Modifier masks for Num Lock, Caps Lock and Scroll Lock, as the X server's
/// modifier mapping assigns them (0 when a lock key is not mapped).
#[derive(Debug, Clone, Copy, PartialEq, Eq, Structural)]
pub struct LockModifiers {
    pub num_lock: u16,
    pub caps_lock: u16,
    pub scroll_lock: u16,
}

/// The masks so far, and each of them with `m` added (when `m` is set).
pub open spec fn with_lock(masks: Seq<u16>, m: u16) -> Seq<u16> {
    if m != 0 {
        masks + masks.map_values(|x: u16| x | m)
    } else {
        masks
    }
}

/// All combinations of the lock masks, starting from no lock at all.
pub open spec fn lock_masks(lm: LockModifiers) -> Seq<u16> {
    with_lock(with_lock(with_lock(seq![0u16], lm.num_lock), lm.caps_lock), lm.scroll_lock)
}

/// The union of the lock masks.
pub open spec fn lock_bits(lm: LockModifiers) -> u16 {
    lm.num_lock | lm.caps_lock | lm.scroll_lock
}

fn extend_with_lock(masks: &mut Vec<u16>, m: u16)
    ensures
        final(masks)@ == with_lock(old(masks)@, m),
{
    if m != 0 {
        let n = masks.len();
        let mut i: usize = 0;
        while i < n
            invariant
                0 <= i <= n,
                n == old(masks)@.len(),
                masks@ == old(masks)@ + old(masks)@.take(i as int).map_values(|x: u16| x | m),
            decreases n - i,
        {
            let x = masks[i];
            masks.push(x | m);
            assert(old(masks)@.take(i + 1).map_values(|x: u16| x | m) =~= old(masks)@.take(
                i as int,
            ).map_values(|x: u16| x | m).push(x | m));
            i = i + 1;
        }
        assert(old(masks)@.take(n as int) =~= old(masks)@);
    }
}

impl LockModifiers {
    /// Get all combinations of lock modifier masks (for Num Lock / Caps Lock
    /// compatibility).
    pub fn all_lock_masks(&self) -> (masks: Vec<u16>)
        ensures
            masks@ == lock_masks(*self),
    {
        let mut masks = vec![0u16];
        assert(masks@ =~= seq![0u16]);
        extend_with_lock(&mut masks, self.num_lock);
        extend_with_lock(&mut masks, self.caps_lock);
        extend_with_lock(&mut masks, self.scroll_lock);
        masks
    }

    /// The modifier state of a key event with the lock bits removed; this is
    /// how an incoming key press is matched against the registered hotkeys.
    pub fn event_modifiers(&self, state: u16) -> (r: u16)
        ensures
            r == state & !lock_bits(*self),
    {
        state & !(self.num_lock | self.caps_lock | self.scroll_lock)
    }
}

proof fn lemma_with_lock_bits(masks: Seq<u16>, m: u16, bits: u16)
    requires
        forall|i: int| 0 <= i < masks.len() ==> #[trigger] masks[i] & !bits == 0,
        m & !bits == 0,
    ensures
        forall|i: int| 0 <= i < with_lock(masks, m).len() ==> #[trigger] with_lock(masks, m)[i] & !bits == 0,
{
    assert forall|i: int| 0 <= i < with_lock(masks, m).len() implies #[trigger] with_lock(masks, m)[i] & !bits == 0 by {
        if m != 0 && i >= masks.len() {
            let x = masks[i - masks.len()];
            assert(x & !bits == 0);
            assert((x | m) & !bits == 0) by (bit_vector)
                requires
                    x & !bits == 0,
                    m & !bits == 0,
            ;
        }
    }
}

proof fn lemma_with_lock_contains(masks: Seq<u16>, m: u16, x: u16, take: bool)
    requires
        masks.contains(x),
    ensures
        with_lock(masks, m).contains(x | (if take { m } else { 0u16 })),
{
    let i = choose|i: int| 0 <= i < masks.len() && masks[i] == x;
    if take && m != 0 {
        let w = with_lock(masks, m);
        assert(w[masks.len() + i] == x | m);
    } else {
        assert(x | 0u16 == x) by (bit_vector);
        if m != 0 {
            assert(with_lock(masks, m)[i] == x);
        } else {
            assert(with_lock(masks, m)[i] == x);
        }
        if take {
            assert(m == 0);
        }
    }
}

/// Num Lock / Caps Lock / Scroll Lock compatibility: the masks under which a
/// hotkey is grabbed hold only lock bits, every combination of the locks is
/// among them, and stripping the lock bits from any grabbed state gives back
/// the hotkey's own modifiers (when those share no bit with the locks).
pub proof fn lemma_lock_masks_cover_all_lock_states(
    lm: LockModifiers,
    num: bool,
    caps: bool,
    scroll: bool,
    mods: u16,
)
    ensures
        forall|i: int|
            0 <= i < lock_masks(lm).len() ==> #[trigger] lock_masks(lm)[i] & !lock_bits(lm) == 0,
        lock_masks(lm).contains(
            (if num { lm.num_lock } else { 0u16 }) | (if caps { lm.caps_lock } else { 0u16 }) | (
            if scroll {
                lm.scroll_lock
            } else {
                0u16
            }),
        ),
        mods & lock_bits(lm) == 0 ==> forall|i: int|
            0 <= i < lock_masks(lm).len() ==> (mods | #[trigger] lock_masks(lm)[i]) & !lock_bits(lm)
                == mods,
{
    let bits = lock_bits(lm);
    let n = lm.num_lock;
    let c = lm.caps_lock;
    let s = lm.scroll_lock;
    assert(n & !(n | c | s) == 0 && c & !(n | c | s) == 0 && s & !(n | c | s) == 0) by (bit_vector);
    assert(seq![0u16][0] & !bits == 0) by {
        assert((0u16 & !bits) == 0) by (bit_vector);
    }
    let m0 = seq![0u16];
    let m1 = with_lock(m0, n);
    let m2 = with_lock(m1, c);
    lemma_with_lock_bits(m0, n, bits);
    lemma_with_lock_bits(m1, c, bits);
    lemma_with_lock_bits(m2, s, bits);
    assert(m0.contains(0u16)) by {
        assert(m0[0] == 0u16);
    }
    lemma_with_lock_contains(m0, n, 0u16, num);
    let a = 0u16 | (if num { n } else { 0u16 });
    lemma_with_lock_contains(m1, c, a, caps);
    let b = a | (if caps { c } else { 0u16 });
    lemma_with_lock_contains(m2, s, b, scroll);
    let pn = if num { n } else { 0u16 };
    let pc = if caps { c } else { 0u16 };
    let ps = if scroll { s } else { 0u16 };
    assert(((0u16 | pn) | pc) | ps == (pn | pc) | ps) by (bit_vector);
    if mods & bits == 0 {
        assert forall|i: int| 0 <= i < lock_masks(lm).len() implies (mods | #[trigger] lock_masks(
            lm,
        )[i]) & !lock_bits(lm) == mods by {
            let x = lock_masks(lm)[i];
            assert((mods | x) & !bits == mods) by (bit_vector)
                requires
                    x & !bits == 0,
                    mods & bits == 0,
            ;
        }
    }
}

/// How many of the first `cols` keysyms in row `row` equal `ks` (a zero
/// keysym is never counted).
pub open spec fn row_count(keysyms: Seq<u32>, per: nat, row: nat, ks: u32, cols: nat) -> nat
    decreases cols,
{
    if cols == 0 {
        0
    } else {
        row_count(keysyms, per, row, ks, (cols - 1) as nat) + if ks != 0 && keysyms[row * per + cols
            - 1] == ks {
            1nat
        } else {
            0nat
        }
    }
}

/// The keycodes that produce keysym `ks` in the first `rows` rows of a
/// keyboard mapping (row `r` is keycode `min + r`), in order, once per
/// occurrence.
pub open spec fn keycodes_for(keysyms: Seq<u32>, per: nat, min: u8, ks: u32, rows: nat) -> Seq<u8>
    decreases rows,
{
    if rows == 0 {
        Seq::<u8>::empty()
    } else {
        keycodes_for(keysyms, per, min, ks, (rows - 1) as nat) + Seq::new(
            row_count(keysyms, per, (rows - 1) as nat, ks, per),
            |_i: int| (min + rows - 1) as u8,
        )
    }
}

/// The keycodes found after `cols` columns of row `row`.
pub open spec fn keycodes_upto(
    keysyms: Seq<u32>,
    per: nat,
    min: u8,
    ks: u32,
    row: nat,
    cols: nat,
) -> Seq<u8> {
    keycodes_for(keysyms, per, min, ks, row) + Seq::new(
        row_count(keysyms, per, row, ks, cols),
        |_i: int| (min + row) as u8,
    )
}

/// `m` maps each keysym to the keycodes that produce it (after `cols`
/// columns of row `row`), and holds no other keysym.
pub open spec fn is_keymap_upto(
    m: Map<u32, Vec<u8>>,
    keysyms: Seq<u32>,
    per: nat,
    min: u8,
    row: nat,
    cols: nat,
) -> bool {
    forall|ks: u32|
        (#[trigger] m.contains_key(ks) <==> keycodes_upto(keysyms, per, min, ks, row, cols).len()
            > 0) && (m.contains_key(ks) ==> m[ks]@ == keycodes_upto(
            keysyms,
            per,
            min,
            ks,
            row,
            cols,
        ))
}

/// `m` maps each keysym to the keycodes that produce it in a keyboard
/// mapping of `rows` keycodes starting at `min`.
pub open spec fn is_keymap(m: Map<u32, Vec<u8>>, keysyms: Seq<u32>, per: nat, min: u8, rows: nat) -> bool {
    forall|ks: u32|
        (#[trigger] m.contains_key(ks) <==> keycodes_for(keysyms, per, min, ks, rows).len() > 0) && (
        m.contains_key(ks) ==> m[ks]@ == keycodes_for(keysyms, per, min, ks, rows))
}

/// A keyboard mapping reply covers keycodes `min..=max` (whose count fits a
/// `u8`) with `per` keysyms each.
pub open spec fn keyboard_mapping_fits(min: u8, max: u8, per: u8, len: nat) -> bool {
    &&& min <= max
    &&& max - min < 255
    &&& (max - min + 1) * per <= len
}

/// Whether a keyboard mapping reply is as large as `build_keymap` reads.
pub fn keyboard_mapping_is_complete(min: u8, max: u8, per: u8, keysyms: &[u32]) -> (r: bool)
    ensures
        r == keyboard_mapping_fits(min, max, per, keysyms@.len()),
{
    if min > max || max - min >= 255 {
        return false;
    }
    let rows = (max - min + 1) as u64;
    assert(rows * (per as u64) <= 255 * 255) by (nonlinear_arith)
        requires
            rows <= 255,
            per <= 255,
    ;
    let needed: u64 = rows * (per as u64);
    needed <= keysyms.len() as u64
}

/// Build a mapping from keysym to keycode(s) out of a GetKeyboardMapping
/// reply: `keysyms` holds `keysyms_per_keycode` entries per keycode, for the
/// keycodes `min_keycode..=max_keycode`.
pub fn build_keymap(min_keycode: u8, max_keycode: u8, keysyms_per_keycode: u8, keysyms: &[u32]) -> (r:
    HashMap<u32, Vec<u8>>)
    requires
        keyboard_mapping_fits(min_keycode, max_keycode, keysyms_per_keycode, keysyms@.len()),
    ensures
        is_keymap(
            r@,
            keysyms@,
            keysyms_per_keycode as nat,
            min_keycode,
            (max_keycode - min_keycode + 1) as nat,
        ),
{
    let per = keysyms_per_keycode as usize;
    let count: u8 = max_keycode - min_keycode + 1;
    let rows = count as usize;
    let mut keymap: HashMap<u32, Vec<u8>> = HashMap::new();
    let ghost ksv = keysyms@;
    let ghost min = min_keycode;
    let klen = keysyms.len();
    let mut i: usize = 0;
    let mut base: usize = 0;
    assert(is_keymap(keymap@, ksv, per as nat, min, 0)) by {
        assert forall|ks: u32| !#[trigger] keymap@.contains_key(ks) by {}
    }
    while i < rows
        invariant
            0 <= i <= rows,
            rows == count as nat,
            count == max_keycode - min_keycode + 1,
            min == min_keycode,
            ksv == keysyms@,
            per == keysyms_per_keycode as nat,
            rows * per <= ksv.len(),
            klen == ksv.len(),
            base == i * per,
            is_keymap(keymap@, ksv, per as nat, min, i as nat),
        decreases rows - i,
    {
        assert((i + 1) * per <= rows * per) by (nonlinear_arith)
            requires
                i + 1 <= rows,
        ;
        assert((i + 1) * per == i * per + per) by (nonlinear_arith);
        let keycode: u8 = min_keycode + i as u8;
        assert(is_keymap_upto(keymap@, ksv, per as nat, min, i as nat, 0)) by {
            assert forall|ks: u32| true implies keycodes_upto(ksv, per as nat, min, ks, i as nat, 0)
                =~= keycodes_for(ksv, per as nat, min, ks, i as nat) by {}
        }
        let mut j: usize = 0;
        while j < per
            invariant
                0 <= j <= per,
                0 <= i < rows,
                min == min_keycode,
                ksv == keysyms@,
                per == keysyms_per_keycode as nat,
                base == i * per,
                base + per <= ksv.len(),
                klen == ksv.len(),
                keycode == (min + i) as u8,
                is_keymap_upto(keymap@, ksv, per as nat, min, i as nat, j as nat),
            decreases per - j,
        {
            let keysym = keysyms[base + j];
            let ghost before = keymap@;
            if keysym != 0 {
                let mut codes: Vec<u8> = match keymap.get(&keysym) {
                    Some(v) => slice_to_vec(v.as_slice()),
                    None => Vec::new(),
                };
                codes.push(keycode);
                keymap.insert(keysym, codes);
            }
            proof {
                assert forall|ks: u32| true implies (#[trigger] keymap@.contains_key(ks)
                    <==> keycodes_upto(ksv, per as nat, min, ks, i as nat, (j + 1) as nat).len() > 0)
                    && (keymap@.contains_key(ks) ==> keymap@[ks]@ == keycodes_upto(
                    ksv,
                    per as nat,
                    min,
                    ks,
                    i as nat,
                    (j + 1) as nat,
                )) by {
                    let old_codes = keycodes_upto(ksv, per as nat, min, ks, i as nat, j as nat);
                    let new_codes = keycodes_upto(ksv, per as nat, min, ks, i as nat, (j + 1) as nat);
                    assert(ksv[i * per + (j + 1) - 1] == keysym);
                    if ks != 0 && keysym == ks {
                        assert(new_codes =~= old_codes.push(keycode));
                    } else {
                        assert(new_codes =~= old_codes);
                    }
                }
            }
            j = j + 1;
        }
        proof {
            assert forall|ks: u32| true implies keycodes_upto(ksv, per as nat, min, ks, i as nat, per as nat)
                =~= keycodes_for(ksv, per as nat, min, ks, (i + 1) as nat) by {}
        }
        base = base + per;
        i = i + 1;
    }
    keymap
}

/// Column `j` of the row of keycode `kc` in the keyboard mapping.
pub open spec fn keysym_at(keysyms: Seq<u32>, per: nat, min: u8, kc: u8, j: int) -> u32 {
    keysyms[(kc - min) * per + j]
}

/// Row `kc - min` of the keyboard mapping holds `target`.
pub open spec fn row_has(keysyms: Seq<u32>, per: nat, min: u8, kc: u8, target: u32) -> bool {
    exists|j: int| 0 <= j < per && #[trigger] keysym_at(keysyms, per, min, kc, j) == target
}

/// Keycode `k` of modifier `m` in the modifier mapping.
pub open spec fn mod_keycode(modmap: Seq<u8>, per_mod: nat, m: nat, k: int) -> u8 {
    modmap[m * per_mod + k]
}

/// One of the first `upto` keycodes of modifier `m` is set and produces
/// `target`.
pub open spec fn modifier_has_upto(
    modmap: Seq<u8>,
    per_mod: nat,
    keysyms: Seq<u32>,
    per: nat,
    min: u8,
    m: nat,
    target: u32,
    upto: int,
) -> bool {
    exists|k: int|
        0 <= k < upto && #[trigger] mod_keycode(modmap, per_mod, m, k) != 0 && row_has(
            keysyms,
            per,
            min,
            mod_keycode(modmap, per_mod, m, k),
            target,
        )
}

/// Some keycode of modifier `m` in the modifier mapping produces `target`.
pub open spec fn modifier_has(
    modmap: Seq<u8>,
    per_mod: nat,
    keysyms: Seq<u32>,
    per: nat,
    min: u8,
    m: nat,
    target: u32,
) -> bool {
    modifier_has_upto(modmap, per_mod, keysyms, per, min, m, target, per_mod as int)
}

/// The mask bit of modifier `m` (0 = Shift, ..., 7 = Mod5).
pub open spec fn modifier_bit(m: nat) -> u16 {
    if m == 0 {
        1
    } else if m == 1 {
        2
    } else if m == 2 {
        4
    } else if m == 3 {
        8
    } else if m == 4 {
        16
    } else if m == 5 {
        32
    } else if m == 6 {
        64
    } else {
        128
    }
}

/// The mask of the highest of the first `upto` modifiers whose keys produce
/// `target`, or 0.
pub open spec fn lock_bit(
    modmap: Seq<u8>,
    per_mod: nat,
    keysyms: Seq<u32>,
    per: nat,
    min: u8,
    target: u32,
    upto: nat,
) -> u16
    decreases upto,
{
    if upto == 0 {
        0
    } else if modifier_has(modmap, per_mod, keysyms, per, min, (upto - 1) as nat, target) {
        modifier_bit((upto - 1) as nat)
    } else {
        lock_bit(modmap, per_mod, keysyms, per, min, target, (upto - 1) as nat)
    }
}

/// The lock mask found for a keysym is the bit of the highest of the first
/// `upto` modifier rows whose keys produce it, or 0 when none does.
pub proof fn lemma_lock_bit_is_highest_row(
    modmap: Seq<u8>,
    per_mod: nat,
    keysyms: Seq<u32>,
    per: nat,
    min: u8,
    target: u32,
    upto: nat,
)
    ensures
        lock_bit(modmap, per_mod, keysyms, per, min, target, upto) == 0 <==> forall|m: nat|
            m < upto ==> !#[trigger] modifier_has(modmap, per_mod, keysyms, per, min, m, target),
        lock_bit(modmap, per_mod, keysyms, per, min, target, upto) != 0 ==> exists|m: nat|
            m < upto && lock_bit(modmap, per_mod, keysyms, per, min, target, upto)
                == modifier_bit(m) && #[trigger] modifier_has(
                modmap,
                per_mod,
                keysyms,
                per,
                min,
                m,
                target,
            ) && forall|m2: nat|
                m < m2 < upto ==> !#[trigger] modifier_has(
                    modmap,
                    per_mod,
                    keysyms,
                    per,
                    min,
                    m2,
                    target,
                ),
    decreases upto,
{
    if upto > 0 {
        let top = (upto - 1) as nat;
        lemma_lock_bit_is_highest_row(modmap, per_mod, keysyms, per, min, target, top);
        if modifier_has(modmap, per_mod, keysyms, per, min, top, target) {
            assert(modifier_bit(top) != 0);
        }
    }
}

/// XK_Num_Lock.
pub const NUM_LOCK_KEYSYM: u32 = 0xFF7F;

/// XK_Caps_Lock.
pub const CAPS_LOCK_KEYSYM: u32 = 0xFFE5;

/// XK_Scroll_Lock.
pub const SCROLL_LOCK_KEYSYM: u32 = 0xFF14;

/// The lock masks that a modifier mapping and keyboard mapping determine.
pub open spec fn detected_locks(
    modmap: Seq<u8>,
    per_mod: nat,
    keysyms: Seq<u32>,
    per: nat,
    min: u8,
) -> LockModifiers {
    LockModifiers {
        num_lock: lock_bit(modmap, per_mod, keysyms, per, min, NUM_LOCK_KEYSYM, 8),
        caps_lock: lock_bit(modmap, per_mod, keysyms, per, min, CAPS_LOCK_KEYSYM, 8),
        scroll_lock: lock_bit(modmap, per_mod, keysyms, per, min, SCROLL_LOCK_KEYSYM, 8),
    }
}

/// The modifier mapping has 8 rows of `per_mod` keycodes, and each nonzero
/// keycode in it has a full row in the keyboard mapping.
pub open spec fn modifier_mapping_fits(
    modmap: Seq<u8>,
    per_mod: nat,
    keysyms: Seq<u32>,
    per: nat,
    min: u8,
) -> bool {
    &&& 8 * per_mod <= modmap.len()
    &&& forall|i: int|
        0 <= i < 8 * per_mod && #[trigger] modmap[i] != 0 ==> modmap[i] >= min && (modmap[i] - min
            + 1) * per <= keysyms.len()
}

/// Whether the replies are as large as `detect_lock_modifiers` reads.
pub fn modifier_mapping_is_complete(
    modmap: &[u8],
    per_mod: usize,
    min_keycode: u8,
    keysyms_per_keycode: usize,
    keysyms: &[u32],
) -> (r: bool)
    ensures
        r == modifier_mapping_fits(
            modmap@,
            per_mod as nat,
            keysyms@,
            keysyms_per_keycode as nat,
            min_keycode,
        ),
{
    if per_mod > modmap.len() / 8 {
        assert(8 * per_mod > modmap@.len()) by (nonlinear_arith)
            requires
                per_mod > modmap@.len() / 8,
        ;
        return false;
    }
    assert(8 * per_mod <= modmap@.len()) by (nonlinear_arith)
        requires
            per_mod <= modmap@.len() / 8,
    ;
    let n = 8 * per_mod;
    let mut i: usize = 0;
    while i < n
        invariant
            0 <= i <= n,
            n == 8 * per_mod,
            n <= modmap@.len(),
            forall|k: int|
                0 <= k < i && #[trigger] modmap@[k] != 0 ==> modmap@[k] >= min_keycode && (modmap@[k]
                    - min_keycode + 1) * keysyms_per_keycode <= keysyms@.len(),
        decreases n - i,
    {
        let kc = modmap[i];
        if kc != 0 {
            if kc < min_keycode {
                return false;
            }
            let rows = (kc - min_keycode) as u128 + 1;
            let per = keysyms_per_keycode as u128;
            assert(rows * per <= 256 * 0x1_0000_0000_0000_0000) by (nonlinear_arith)
                requires
                    rows <= 256,
                    per < 0x1_0000_0000_0000_0000,
            ;
            if rows * per > keysyms.len() as u128 {
                return false;
            }
        }
        i = i + 1;
    }
    true
}

fn has_keysym(keysyms: &[u32], per: usize, min_keycode: u8, keycode: u8, target: u32) -> (r: bool)
    requires
        keycode >= min_keycode,
        (keycode - min_keycode + 1) * per <= keysyms@.len(),
    ensures
        r == row_has(keysyms@, per as nat, min_keycode, keycode, target),
{
    let klen = keysyms.len();
    let row = (keycode - min_keycode) as usize;
    assert(row * per + per <= keysyms@.len()) by (nonlinear_arith)
        requires
            (row + 1) * per <= keysyms@.len(),
    ;
    let idx = row * per;
    let mut j: usize = 0;
    while j < per
        invariant
            0 <= j <= per,
            idx == row * per,
            row == keycode - min_keycode,
            idx + per <= keysyms@.len(),
            klen == keysyms@.len(),
            forall|m: int| 0 <= m < j ==> #[trigger] keysym_at(keysyms@, per as nat, min_keycode, keycode, m) != target,
        decreases per - j,
    {
        assert(keysyms@[idx + j] == keysym_at(keysyms@, per as nat, min_keycode, keycode, j as int));
        if keysyms[idx + j] == target {
            assert(keysym_at(keysyms@, per as nat, min_keycode, keycode, j as int) == target);
            return true;
        }
        j = j + 1;
    }
    false
}

fn modifier_bit_of(m: usize) -> (r: u16)
    requires
        m < 8,
    ensures
        r == modifier_bit(m as nat),
{
    match m {
        0 => 1,
        1 => 2,
        2 => 4,
        3 => 8,
        4 => 16,
        5 => 32,
        6 => 64,
        _ => 128,
    }
}

/// Detect modifier masks for Num Lock, Caps Lock, Scroll Lock out of a
/// GetModifierMapping reply (`modmap`, `per_mod` keycodes per modifier) and a
/// GetKeyboardMapping reply (`keysyms`, `keysyms_per_keycode` per keycode,
/// starting at `min_keycode`). When several modifiers carry a lock key, the
/// highest one is taken.
pub fn detect_lock_modifiers(
    modmap: &[u8],
    per_mod: usize,
    min_keycode: u8,
    keysyms_per_keycode: usize,
    keysyms: &[u32],
) -> (r: LockModifiers)
    requires
        modifier_mapping_fits(
            modmap@,
            per_mod as nat,
            keysyms@,
            keysyms_per_keycode as nat,
            min_keycode,
        ),
    ensures
        r == detected_locks(
            modmap@,
            per_mod as nat,
            keysyms@,
            keysyms_per_keycode as nat,
            min_keycode,
        ),
{
    let ghost mm = modmap@;
    let ghost ks = keysyms@;
    let ghost pm = per_mod as nat;
    let ghost kp = keysyms_per_keycode as nat;
    let mlen = modmap.len();
    let mut num_lock = 0u16;
    let mut caps_lock = 0u16;
    let mut scroll_lock = 0u16;
    let mut mod_idx: usize = 0;
    while mod_idx < 8
        invariant
            0 <= mod_idx <= 8,
            mm == modmap@,
            ks == keysyms@,
            pm == per_mod,
            kp == keysyms_per_keycode,
            modifier_mapping_fits(mm, pm, ks, kp, min_keycode),
            mlen == mm.len(),
            num_lock == lock_bit(mm, pm, ks, kp, min_keycode, NUM_LOCK_KEYSYM, mod_idx as nat),
            caps_lock == lock_bit(mm, pm, ks, kp, min_keycode, CAPS_LOCK_KEYSYM, mod_idx as nat),
            scroll_lock == lock_bit(mm, pm, ks, kp, min_keycode, SCROLL_LOCK_KEYSYM, mod_idx as nat),
        decreases 8 - mod_idx,
    {
        let mask = modifier_bit_of(mod_idx);
        let ghost prev_num = num_lock;
        let ghost prev_caps = caps_lock;
        let ghost prev_scroll = scroll_lock;
        assert(mod_idx * per_mod + per_mod <= 8 * per_mod) by (nonlinear_arith)
            requires
                mod_idx < 8,
        ;
        let row = mod_idx * per_mod;
        let mut k: usize = 0;
        while k < per_mod
            invariant
                0 <= k <= per_mod,
                mod_idx < 8,
                row == mod_idx * per_mod,
                row + per_mod <= 8 * per_mod,
                mm == modmap@,
                ks == keysyms@,
                pm == per_mod,
                kp == keysyms_per_keycode,
                mask == modifier_bit(mod_idx as nat),
                modifier_mapping_fits(mm, pm, ks, kp, min_keycode),
                mlen == mm.len(),
                prev_num == lock_bit(mm, pm, ks, kp, min_keycode, NUM_LOCK_KEYSYM, mod_idx as nat),
                prev_caps == lock_bit(mm, pm, ks, kp, min_keycode, CAPS_LOCK_KEYSYM, mod_idx as nat),
                prev_scroll == lock_bit(
                    mm,
                    pm,
                    ks,
                    kp,
                    min_keycode,
                    SCROLL_LOCK_KEYSYM,
                    mod_idx as nat,
                ),
                num_lock == if modifier_has_upto(
                    mm,
                    pm,
                    ks,
                    kp,
                    min_keycode,
                    mod_idx as nat,
                    NUM_LOCK_KEYSYM,
                    k as int,
                ) {
                    mask
                } else {
                    prev_num
                },
                caps_lock == if modifier_has_upto(
                    mm,
                    pm,
                    ks,
                    kp,
                    min_keycode,
                    mod_idx as nat,
                    CAPS_LOCK_KEYSYM,
                    k as int,
                ) {
                    mask
                } else {
                    prev_caps
                },
                scroll_lock == if modifier_has_upto(
                    mm,
                    pm,
                    ks,
                    kp,
                    min_keycode,
                    mod_idx as nat,
                    SCROLL_LOCK_KEYSYM,
                    k as int,
                ) {
                    mask
                } else {
                    prev_scroll
                },
            decreases per_mod - k,
        {
            let keycode = modmap[row + k];
            assert(keycode == mod_keycode(mm, pm, mod_idx as nat, k as int));
            proof {
                let m = mod_idx as nat;
                let ki = k as int;
                assert forall|t: u32| #[trigger]
                    modifier_has_upto(mm, pm, ks, kp, min_keycode, m, t, ki + 1) == (
                    modifier_has_upto(mm, pm, ks, kp, min_keycode, m, t, ki) || (keycode != 0
                        && row_has(ks, kp, min_keycode, keycode, t))) by {
                    if keycode != 0 && row_has(ks, kp, min_keycode, keycode, t) {
                        assert(mod_keycode(mm, pm, m, ki) != 0);
                    }
                    if modifier_has_upto(mm, pm, ks, kp, min_keycode, m, t, ki + 1) {
                        let w = choose|w: int|
                            0 <= w < ki + 1 && #[trigger] mod_keycode(mm, pm, m, w) != 0 && row_has(
                                ks,
                                kp,
                                min_keycode,
                                mod_keycode(mm, pm, m, w),
                                t,
                            );
                        if w < ki {
                            assert(mod_keycode(mm, pm, m, w) != 0);
                        }
                    }
                }
            }
            if keycode != 0 {
                assert(mm[row + k] != 0);
                if has_keysym(keysyms, keysyms_per_keycode, min_keycode, keycode, NUM_LOCK_KEYSYM) {
                    num_lock = mask;
                }
                if has_keysym(keysyms, keysyms_per_keycode, min_keycode, keycode, CAPS_LOCK_KEYSYM) {
                    caps_lock = mask;
                }
                if has_keysym(keysyms, keysyms_per_keycode, min_keycode, keycode, SCROLL_LOCK_KEYSYM) {
                    scroll_lock = mask;
                }
            }
            k = k + 1;
        }
        mod_idx = mod_idx + 1;
    }
    LockModifiers { num_lock, caps_lock, scroll_lock }
}

/// The key grabs a hotkey needs: for each keycode in turn, its modifiers
/// combined with each lock mask.
pub open spec fn grab_list(keycodes: Seq<u8>, mods: u16, locks: Seq<u16>) -> Seq<(u8, u16)>
    decreases keycodes.len(),
{
    if keycodes.len() == 0 {
        Seq::<(u8, u16)>::empty()
    } else {
        grab_list(keycodes.drop_last(), mods, locks) + locks.map_values(
            |l: u16| (keycodes.last(), mods | l),
        )
    }
}

/// The `(keycode, modifiers)` pairs to grab, in the order they are grabbed.
pub fn grab_requests(keycodes: &[u8], mods: u16, locks: &[u16]) -> (r: Vec<(u8, u16)>)
    ensures
        r@ == grab_list(keycodes@, mods, locks@),
{
    let mut r: Vec<(u8, u16)> = Vec::new();
    let mut i: usize = 0;
    assert(keycodes@.take(0) =~= Seq::<u8>::empty());
    while i < keycodes.len()
        invariant
            0 <= i <= keycodes@.len(),
            r@ == grab_list(keycodes@.take(i as int), mods, locks@),
        decreases keycodes.len() - i,
    {
        let keycode = keycodes[i];
        let ghost before = r@;
        let mut j: usize = 0;
        while j < locks.len()
            invariant
                0 <= j <= locks@.len(),
                r@ == before + locks@.take(j as int).map_values(|l: u16| (keycode, mods | l)),
            decreases locks.len() - j,
        {
            r.push((keycode, mods | locks[j]));
            assert(locks@.take(j + 1).map_values(|l: u16| (keycode, mods | l)) =~= locks@.take(
                j as int,
            ).map_values(|l: u16| (keycode, mods | l)).push((keycode, mods | locks@[j as int])));
            j = j + 1;
        }
        proof {
            assert(locks@.take(locks@.len() as int) =~= locks@);
            let t = keycodes@.take(i + 1);
            assert(t.drop_last() =~= keycodes@.take(i as int));
            assert(t.last() == keycode);
        }
        i = i + 1;
    }
    assert(keycodes@.take(keycodes@.len() as int) =~= keycodes@);
    r
}

/// What registering a hotkey with the X server involves.
#[derive(Debug)]
pub struct GrabPlan {
    /// The keysym of the hotkey's key.
    pub keysym: u32,
    /// The X11 modifier mask of the hotkey (without lock bits).
    pub modifiers: u16,
    /// The keycodes that produce the keysym.
    pub keycodes: Vec<u8>,
    /// The `(keycode, modifiers)` pairs to grab, in order.
    pub grabs: Vec<(u8, u16)>,
}

/// The reason given when a keysym has no keycode on the keyboard.
pub open spec fn missing_keysym_reason(keysym: u32) -> Seq<char> {
    "keysym 0x"@ + zero_padded(hex_upper(keysym as nat), 4) + " not found on keyboard"@
}

/// What `plan_registration` answers for a hotkey, a keyboard map and the
/// lock modifiers.
pub open spec fn registration_outcome(
    hotkey: Seq<char>,
    keymap: Map<u32, Vec<u8>>,
    lm: LockModifiers,
    r: Result<GrabPlan, KeyflowError>,
) -> bool {
    match parse_hotkey_spec(hotkey) {
        Err(reason) => match r {
            Err(KeyflowError::HotkeyRegistration { hotkey: input, reason: given }) => input@ == trim(hotkey)
                && given@ == reason,
            _ => false,
        },
        Ok((key, m)) => {
            let ks = x11_keysym(key);
            let xm = x11_modifiers(m);
            if keymap.contains_key(ks) {
                match r {
                    Ok(plan) => plan.keysym == ks && plan.modifiers == xm && plan.keycodes@
                        == keymap[ks]@ && plan.grabs@ == grab_list(keymap[ks]@, xm, lock_masks(lm)),
                    Err(_) => false,
                }
            } else {
                match r {
                    Err(KeyflowError::HotkeyRegistration { hotkey: h, reason }) => h@ == hotkey
                        && reason@ == missing_keysym_reason(ks),
                    _ => false,
                }
            }
        },
    }
}

/// Plan the registration of a hotkey: parse it, find the keycodes of its
/// keysym and list the grabs (one per keycode and lock-mask combination).
pub fn plan_registration(
    hotkey: &str,
    keymap: &HashMap<u32, Vec<u8>>,
    lock_mods: &LockModifiers,
) -> (r: Result<GrabPlan, KeyflowError>)
    ensures
        registration_outcome(hotkey@, keymap@, *lock_mods, r),
{
    let combo = match parse_hotkey(hotkey) {
        Ok(c) => c,
        Err(e) => return Err(e),
    };
    let keysym = key_to_x11_keysym(combo.key);
    let x11_mods = modifiers_to_x11(combo.modifiers);
    let keycodes = match keymap.get(&keysym) {
        Some(v) => slice_to_vec(v.as_slice()),
        None => {
            let mut reason = "keysym 0x".to_owned();
            let hex = hex_padded(keysym, 4);
            reason.append(hex.as_str());
            reason.append(" not found on keyboard");
            return Err(KeyflowError::HotkeyRegistration { hotkey: hotkey.to_owned(), reason });
        },
    };
    let lock_masks = lock_mods.all_lock_masks();
    let grabs = grab_requests(keycodes.as_slice(), x11_mods, lock_masks.as_slice());
    Ok(GrabPlan { keysym, modifiers: x11_mods, keycodes, grabs })
}

/// The text of an X11 request failure, from the request's name and the
/// error's debug text.
pub open spec fn x11_error_text(operation: Seq<char>, detail: Seq<char>) -> Seq<char> {
    if contains(detail, "Access"@) {
        operation + " failed: hotkey already grabbed by another application"@
    } else if contains(detail, "Value"@) {
        operation + " failed: invalid keycode or modifier"@
    } else if contains(detail, "Match"@) {
        operation + " failed: incompatible configuration"@
    } else {
        operation + " failed: "@ + detail
    }
}

/// Format X11 errors into human-readable messages (`detail` is the error's
/// debug text).
pub fn format_x11_error(operation: &str, detail: &str) -> (r: String)
    ensures
        r@ == x11_error_text(operation@, detail@),
{
    let mut msg = operation.to_owned();
    if str_contains(detail, "Access") {
        msg.append(" failed: hotkey already grabbed by another application");
    } else if str_contains(detail, "Value") {
        msg.append(" failed: invalid keycode or modifier");
    } else if str_contains(detail, "Match") {
        msg.append(" failed: incompatible configuration");
    } else {
        msg.append(" failed: ");
        msg.append(detail);
    }
    msg
}

} // verus!
