//! Platform-agnostic hotkey definitions.
//!
//! Parses hotkey strings like "Ctrl+Shift+F7" into platform-independent
//! representations that each platform backend maps to native keycodes.
pub mod modifiers;

use crate::error::KeyflowError;
use crate::text::{
    ascii_lower, ascii_lower_char, ascii_upper, ascii_upper_char, chars_of, is_ascii_text, is_lit,
    lemma_lower_text, lemma_split_lower, lemma_trim_idempotent, lemma_trim_lower, lower_text,
    upper_text, parse_u32, parse_u32_chars, split_chars,
    split_on, string_of, to_lowercase, decimal, digit_char, digit_value, digits_value, all_digits, to_uppercase, trim, trim_chars, unicode_lower, unicode_upper,
    views,
};
use vstd::prelude::*;
use vstd::slice::slice_subrange;

verus! {

/// Platform-agnostic key identifiers.
///
/// Each variant represents a physical key, independent of platform-specific
/// keycodes (X11 keysym, Windows VK, macOS CGKeyCode).
#[derive(Debug, Clone, Copy, PartialEq, Eq, Hash, Structural)]
pub enum Key {
    // Letters
    A, B, C, D, E, F, G, H, I, J, K, L, M,
    N, O, P, Q, R, S, T, U, V, W, X, Y, Z,
    // Digits
    Digit0, Digit1, Digit2, Digit3, Digit4,
    Digit5, Digit6, Digit7, Digit8, Digit9,
    // Function keys
    F1, F2, F3, F4, F5, F6, F7, F8, F9, F10,
    F11, F12, F13, F14, F15, F16, F17, F18, F19, F20,
    F21, F22, F23, F24,
    // Navigation
    Home, End, PageUp, PageDown,
    Up, Down, Left, Right,
    Insert, Delete,
    Tab, Enter, Escape, Backspace, Space,
    // Punctuation
    Minus, Equal, BracketLeft, BracketRight,
    Backslash, Semicolon, Apostrophe, Grave,
    Comma, Period, Slash,
}

/// Parsed hotkey combination.
#[derive(Debug, Clone, PartialEq, Eq, Structural)]
pub struct HotkeyCombo {
    pub key: Key,
    pub modifiers: u16,
}

/// The function key `F<n>`, for `n` in 1..=24.
pub open spec fn function_key(n: u32) -> Option<Key> {
    if n == 1 {
        Some(Key::F1)
    } else if n == 2 {
        Some(Key::F2)
    } else if n == 3 {
        Some(Key::F3)
    } else if n == 4 {
        Some(Key::F4)
    } else if n == 5 {
        Some(Key::F5)
    } else if n == 6 {
        Some(Key::F6)
    } else if n == 7 {
        Some(Key::F7)
    } else if n == 8 {
        Some(Key::F8)
    } else if n == 9 {
        Some(Key::F9)
    } else if n == 10 {
        Some(Key::F10)
    } else if n == 11 {
        Some(Key::F11)
    } else if n == 12 {
        Some(Key::F12)
    } else if n == 13 {
        Some(Key::F13)
    } else if n == 14 {
        Some(Key::F14)
    } else if n == 15 {
        Some(Key::F15)
    } else if n == 16 {
        Some(Key::F16)
    } else if n == 17 {
        Some(Key::F17)
    } else if n == 18 {
        Some(Key::F18)
    } else if n == 19 {
        Some(Key::F19)
    } else if n == 20 {
        Some(Key::F20)
    } else if n == 21 {
        Some(Key::F21)
    } else if n == 22 {
        Some(Key::F22)
    } else if n == 23 {
        Some(Key::F23)
    } else if n == 24 {
        Some(Key::F24)
    } else {
        None
    }
}

/// Keys named by a single (upper-cased) character: letters, digits and
/// punctuation.
pub open spec fn single_char_key(c: char) -> Option<Key> {
    match c {
        'A' => Some(Key::A),
        'B' => Some(Key::B),
        'C' => Some(Key::C),
        'D' => Some(Key::D),
        'E' => Some(Key::E),
        'F' => Some(Key::F),
        'G' => Some(Key::G),
        'H' => Some(Key::H),
        'I' => Some(Key::I),
        'J' => Some(Key::J),
        'K' => Some(Key::K),
        'L' => Some(Key::L),
        'M' => Some(Key::M),
        'N' => Some(Key::N),
        'O' => Some(Key::O),
        'P' => Some(Key::P),
        'Q' => Some(Key::Q),
        'R' => Some(Key::R),
        'S' => Some(Key::S),
        'T' => Some(Key::T),
        'U' => Some(Key::U),
        'V' => Some(Key::V),
        'W' => Some(Key::W),
        'X' => Some(Key::X),
        'Y' => Some(Key::Y),
        'Z' => Some(Key::Z),
        '0' => Some(Key::Digit0),
        '1' => Some(Key::Digit1),
        '2' => Some(Key::Digit2),
        '3' => Some(Key::Digit3),
        '4' => Some(Key::Digit4),
        '5' => Some(Key::Digit5),
        '6' => Some(Key::Digit6),
        '7' => Some(Key::Digit7),
        '8' => Some(Key::Digit8),
        '9' => Some(Key::Digit9),
        '-' => Some(Key::Minus),
        '=' => Some(Key::Equal),
        '[' => Some(Key::BracketLeft),
        ']' => Some(Key::BracketRight),
        '\\' => Some(Key::Backslash),
        ';' => Some(Key::Semicolon),
        '\'' => Some(Key::Apostrophe),
        '`' => Some(Key::Grave),
        ',' => Some(Key::Comma),
        '.' => Some(Key::Period),
        '/' => Some(Key::Slash),
        _ => None,
    }
}

/// Keys named by a word (upper-cased), including the aliases.
pub open spec fn word_key(u: Seq<char>) -> Option<Key> {
    if u == seq!['S', 'P', 'A', 'C', 'E'] {
        Some(Key::Space)
    } else if u == seq!['T', 'A', 'B'] {
        Some(Key::Tab)
    } else if u == seq!['E', 'S', 'C'] {
        Some(Key::Escape)
    } else if u == seq!['E', 'S', 'C', 'A', 'P', 'E'] {
        Some(Key::Escape)
    } else if u == seq!['E', 'N', 'T', 'E', 'R'] {
        Some(Key::Enter)
    } else if u == seq!['R', 'E', 'T', 'U', 'R', 'N'] {
        Some(Key::Enter)
    } else if u == seq!['B', 'A', 'C', 'K', 'S', 'P', 'A', 'C', 'E'] {
        Some(Key::Backspace)
    } else if u == seq!['D', 'E', 'L', 'E', 'T', 'E'] {
        Some(Key::Delete)
    } else if u == seq!['D', 'E', 'L'] {
        Some(Key::Delete)
    } else if u == seq!['I', 'N', 'S', 'E', 'R', 'T'] {
        Some(Key::Insert)
    } else if u == seq!['I', 'N', 'S'] {
        Some(Key::Insert)
    } else if u == seq!['H', 'O', 'M', 'E'] {
        Some(Key::Home)
    } else if u == seq!['E', 'N', 'D'] {
        Some(Key::End)
    } else if u == seq!['P', 'A', 'G', 'E', 'U', 'P'] {
        Some(Key::PageUp)
    } else if u == seq!['P', 'G', 'U', 'P'] {
        Some(Key::PageUp)
    } else if u == seq!['P', 'A', 'G', 'E', 'D', 'O', 'W', 'N'] {
        Some(Key::PageDown)
    } else if u == seq!['P', 'G', 'D', 'N'] {
        Some(Key::PageDown)
    } else if u == seq!['U', 'P'] {
        Some(Key::Up)
    } else if u == seq!['D', 'O', 'W', 'N'] {
        Some(Key::Down)
    } else if u == seq!['L', 'E', 'F', 'T'] {
        Some(Key::Left)
    } else if u == seq!['R', 'I', 'G', 'H', 'T'] {
        Some(Key::Right)
    } else if u == seq!['M', 'I', 'N', 'U', 'S'] {
        Some(Key::Minus)
    } else if u == seq!['E', 'Q', 'U', 'A', 'L'] {
        Some(Key::Equal)
    } else if u == seq!['B', 'R', 'A', 'C', 'K', 'E', 'T', 'L', 'E', 'F', 'T'] {
        Some(Key::BracketLeft)
    } else if u == seq!['B', 'R', 'A', 'C', 'K', 'E', 'T', 'R', 'I', 'G', 'H', 'T'] {
        Some(Key::BracketRight)
    } else if u == seq!['B', 'A', 'C', 'K', 'S', 'L', 'A', 'S', 'H'] {
        Some(Key::Backslash)
    } else if u == seq!['S', 'E', 'M', 'I', 'C', 'O', 'L', 'O', 'N'] {
        Some(Key::Semicolon)
    } else if u == seq!['A', 'P', 'O', 'S', 'T', 'R', 'O', 'P', 'H', 'E'] {
        Some(Key::Apostrophe)
    } else if u == seq!['G', 'R', 'A', 'V', 'E'] {
        Some(Key::Grave)
    } else if u == seq!['C', 'O', 'M', 'M', 'A'] {
        Some(Key::Comma)
    } else if u == seq!['P', 'E', 'R', 'I', 'O', 'D'] {
        Some(Key::Period)
    } else if u == seq!['S', 'L', 'A', 'S', 'H'] {
        Some(Key::Slash)
    } else {
        None
    }
}

/// The key that an upper-cased key name denotes: `F1`..`F24` (the number as
/// `str::parse::<u32>` reads it), then single characters, then words.
pub open spec fn key_for_upper(u: Seq<char>) -> Option<Key> {
    if u.len() > 0 && u[0] == 'F' && parse_u32(u.drop_first()) is Some && 1 <= parse_u32(
        u.drop_first(),
    )->0 <= 24 {
        function_key(parse_u32(u.drop_first())->0)
    } else if u.len() == 1 {
        single_char_key(u[0])
    } else {
        word_key(u)
    }
}

/// The modifier flag that a lower-cased modifier name denotes.
pub open spec fn modifier_flag(l: Seq<char>) -> Option<u16> {
    if l == seq!['c', 't', 'r', 'l'] || l == seq!['c', 'o', 'n', 't', 'r', 'o', 'l'] {
        Some(modifiers::CONTROL)
    } else if l == seq!['s', 'h', 'i', 'f', 't'] {
        Some(modifiers::SHIFT)
    } else if l == seq!['a', 'l', 't'] {
        Some(modifiers::ALT)
    } else if l == seq!['s', 'u', 'p', 'e', 'r'] || l == seq!['w', 'i', 'n'] || l == seq![
        'm',
        'e',
        't',
        'a',
    ] {
        Some(modifiers::SUPER)
    } else {
        None
    }
}

/// Parse a modifier name to its flag value.
pub fn parse_modifier(name: &str) -> (r: Option<u16>)
    ensures
        r == modifier_flag(lower_text(name@)),
        r == modifier_flag(unicode_lower(name@)),
        is_ascii_text(name@) ==> r == modifier_flag(ascii_lower(name@)),
{
    let lower = to_lowercase(name);
    let l = chars_of(lower.as_str());
    let l = l.as_slice();
    if is_lit(l, &['c', 't', 'r', 'l']) || is_lit(l, &['c', 'o', 'n', 't', 'r', 'o', 'l']) {
        Some(modifiers::CONTROL)
    } else if is_lit(l, &['s', 'h', 'i', 'f', 't']) {
        Some(modifiers::SHIFT)
    } else if is_lit(l, &['a', 'l', 't']) {
        Some(modifiers::ALT)
    } else if is_lit(l, &['s', 'u', 'p', 'e', 'r']) || is_lit(l, &['w', 'i', 'n']) || is_lit(
        l,
        &['m', 'e', 't', 'a'],
    ) {
        Some(modifiers::SUPER)
    } else {
        None
    }
}

/// The function key `F<n>`.
fn function_key_of(n: u32) -> (r: Option<Key>)
    ensures
        r == function_key(n),
{
    match n {
        1 => Some(Key::F1),
        2 => Some(Key::F2),
        3 => Some(Key::F3),
        4 => Some(Key::F4),
        5 => Some(Key::F5),
        6 => Some(Key::F6),
        7 => Some(Key::F7),
        8 => Some(Key::F8),
        9 => Some(Key::F9),
        10 => Some(Key::F10),
        11 => Some(Key::F11),
        12 => Some(Key::F12),
        13 => Some(Key::F13),
        14 => Some(Key::F14),
        15 => Some(Key::F15),
        16 => Some(Key::F16),
        17 => Some(Key::F17),
        18 => Some(Key::F18),
        19 => Some(Key::F19),
        20 => Some(Key::F20),
        21 => Some(Key::F21),
        22 => Some(Key::F22),
        23 => Some(Key::F23),
        24 => Some(Key::F24),
        _ => None,
    }
}

/// The key named by one upper-cased character.
fn single_char_key_of(c: char) -> (r: Option<Key>)
    ensures
        r == single_char_key(c),
{
    match c {
        'A' => Some(Key::A),
        'B' => Some(Key::B),
        'C' => Some(Key::C),
        'D' => Some(Key::D),
        'E' => Some(Key::E),
        'F' => Some(Key::F),
        'G' => Some(Key::G),
        'H' => Some(Key::H),
        'I' => Some(Key::I),
        'J' => Some(Key::J),
        'K' => Some(Key::K),
        'L' => Some(Key::L),
        'M' => Some(Key::M),
        'N' => Some(Key::N),
        'O' => Some(Key::O),
        'P' => Some(Key::P),
        'Q' => Some(Key::Q),
        'R' => Some(Key::R),
        'S' => Some(Key::S),
        'T' => Some(Key::T),
        'U' => Some(Key::U),
        'V' => Some(Key::V),
        'W' => Some(Key::W),
        'X' => Some(Key::X),
        'Y' => Some(Key::Y),
        'Z' => Some(Key::Z),
        '0' => Some(Key::Digit0),
        '1' => Some(Key::Digit1),
        '2' => Some(Key::Digit2),
        '3' => Some(Key::Digit3),
        '4' => Some(Key::Digit4),
        '5' => Some(Key::Digit5),
        '6' => Some(Key::Digit6),
        '7' => Some(Key::Digit7),
        '8' => Some(Key::Digit8),
        '9' => Some(Key::Digit9),
        '-' => Some(Key::Minus),
        '=' => Some(Key::Equal),
        '[' => Some(Key::BracketLeft),
        ']' => Some(Key::BracketRight),
        '\\' => Some(Key::Backslash),
        ';' => Some(Key::Semicolon),
        '\'' => Some(Key::Apostrophe),
        '`' => Some(Key::Grave),
        ',' => Some(Key::Comma),
        '.' => Some(Key::Period),
        '/' => Some(Key::Slash),
        _ => None,
    }
}

/// The key named by an upper-cased word.
fn word_key_of(u: &[char]) -> (r: Option<Key>)
    ensures
        r == word_key(u@),
{
    if is_lit(u, &['S', 'P', 'A', 'C', 'E']) {
        Some(Key::Space)
    } else if is_lit(u, &['T', 'A', 'B']) {
        Some(Key::Tab)
    } else if is_lit(u, &['E', 'S', 'C']) {
        Some(Key::Escape)
    } else if is_lit(u, &['E', 'S', 'C', 'A', 'P', 'E']) {
        Some(Key::Escape)
    } else if is_lit(u, &['E', 'N', 'T', 'E', 'R']) {
        Some(Key::Enter)
    } else if is_lit(u, &['R', 'E', 'T', 'U', 'R', 'N']) {
        Some(Key::Enter)
    } else if is_lit(u, &['B', 'A', 'C', 'K', 'S', 'P', 'A', 'C', 'E']) {
        Some(Key::Backspace)
    } else if is_lit(u, &['D', 'E', 'L', 'E', 'T', 'E']) {
        Some(Key::Delete)
    } else if is_lit(u, &['D', 'E', 'L']) {
        Some(Key::Delete)
    } else if is_lit(u, &['I', 'N', 'S', 'E', 'R', 'T']) {
        Some(Key::Insert)
    } else if is_lit(u, &['I', 'N', 'S']) {
        Some(Key::Insert)
    } else if is_lit(u, &['H', 'O', 'M', 'E']) {
        Some(Key::Home)
    } else if is_lit(u, &['E', 'N', 'D']) {
        Some(Key::End)
    } else if is_lit(u, &['P', 'A', 'G', 'E', 'U', 'P']) {
        Some(Key::PageUp)
    } else if is_lit(u, &['P', 'G', 'U', 'P']) {
        Some(Key::PageUp)
    } else if is_lit(u, &['P', 'A', 'G', 'E', 'D', 'O', 'W', 'N']) {
        Some(Key::PageDown)
    } else if is_lit(u, &['P', 'G', 'D', 'N']) {
        Some(Key::PageDown)
    } else if is_lit(u, &['U', 'P']) {
        Some(Key::Up)
    } else if is_lit(u, &['D', 'O', 'W', 'N']) {
        Some(Key::Down)
    } else if is_lit(u, &['L', 'E', 'F', 'T']) {
        Some(Key::Left)
    } else if is_lit(u, &['R', 'I', 'G', 'H', 'T']) {
        Some(Key::Right)
    } else if is_lit(u, &['M', 'I', 'N', 'U', 'S']) {
        Some(Key::Minus)
    } else if is_lit(u, &['E', 'Q', 'U', 'A', 'L']) {
        Some(Key::Equal)
    } else if is_lit(u, &['B', 'R', 'A', 'C', 'K', 'E', 'T', 'L', 'E', 'F', 'T']) {
        Some(Key::BracketLeft)
    } else if is_lit(u, &['B', 'R', 'A', 'C', 'K', 'E', 'T', 'R', 'I', 'G', 'H', 'T']) {
        Some(Key::BracketRight)
    } else if is_lit(u, &['B', 'A', 'C', 'K', 'S', 'L', 'A', 'S', 'H']) {
        Some(Key::Backslash)
    } else if is_lit(u, &['S', 'E', 'M', 'I', 'C', 'O', 'L', 'O', 'N']) {
        Some(Key::Semicolon)
    } else if is_lit(u, &['A', 'P', 'O', 'S', 'T', 'R', 'O', 'P', 'H', 'E']) {
        Some(Key::Apostrophe)
    } else if is_lit(u, &['G', 'R', 'A', 'V', 'E']) {
        Some(Key::Grave)
    } else if is_lit(u, &['C', 'O', 'M', 'M', 'A']) {
        Some(Key::Comma)
    } else if is_lit(u, &['P', 'E', 'R', 'I', 'O', 'D']) {
        Some(Key::Period)
    } else if is_lit(u, &['S', 'L', 'A', 'S', 'H']) {
        Some(Key::Slash)
    } else {
        None
    }
}

/// Map a key name to a Key variant (case-insensitive: the name is
/// upper-cased first).
pub fn key_from_name(name: &str) -> (r: Option<Key>)
    ensures
        r == key_for_upper(upper_text(name@)),
        r == key_for_upper(unicode_upper(name@)),
        is_ascii_text(name@) ==> r == key_for_upper(ascii_upper(name@)),
{
    let upper = to_uppercase(name);
    let u = chars_of(upper.as_str());
    let u = u.as_slice();
    if u.len() > 0 && u[0] == 'F' {
        let rest = slice_subrange(u, 1, u.len());
        assert(rest@ =~= u@.drop_first());
        if let Some(n) = parse_u32_chars(rest) {
            if 1 <= n && n <= 24 {
                return function_key_of(n);
            }
        }
    }
    if u.len() == 1 {
        single_char_key_of(u[0])
    } else {
        word_key_of(u)
    }
}

/// Folds the parts of a hotkey string from the front: modifiers are ORed
/// together, one key may be named. `Err(None)`: a second key was named;
/// `Err(Some(part))`: `part` names neither a modifier nor a key.
pub open spec fn fold_parts(parts: Seq<Seq<char>>, mods: u16, key: Option<Key>) -> Result<
    (u16, Option<Key>),
    Option<Seq<char>>,
>
    decreases parts.len(),
{
    if parts.len() == 0 {
        Ok((mods, key))
    } else {
        let p = parts[0];
        match modifier_flag(lower_text(p)) {
            Some(m) => fold_parts(parts.drop_first(), mods | m, key),
            None => match key_for_upper(upper_text(p)) {
                Some(k) => if key is Some {
                    Err(None)
                } else {
                    fold_parts(parts.drop_first(), mods, Some(k))
                },
                None => Err(Some(p)),
            },
        }
    }
}

/// The trimmed `+`-separated parts of an (already trimmed) hotkey string.
pub open spec fn hotkey_parts(t: Seq<char>) -> Seq<Seq<char>> {
    split_on(t, '+').map_values(|p: Seq<char>| trim(p))
}

/// Outcome of parsing a hotkey string: the key and modifier flags, or the
/// reason given for refusing it.
pub open spec fn parse_hotkey_spec(s: Seq<char>) -> Result<(Key, u16), Seq<char>> {
    let t = trim(s);
    if t.len() == 0 {
        Err("empty hotkey string"@)
    } else {
        match fold_parts(hotkey_parts(t), 0, None) {
            Err(None) => Err("multiple key names (only one non-modifier key allowed)"@),
            Err(Some(p)) => Err("unknown key name: '"@ + p + "'"@),
            Ok((_, None)) => Err("no key specified (only modifiers)"@),
            Ok((m, Some(k))) => Ok((k, m)),
        }
    }
}

proof fn lemma_fold_step(parts: Seq<Seq<char>>, i: int, mods: u16, key: Option<Key>)
    requires
        0 <= i < parts.len(),
    ensures
        fold_parts(parts.skip(i), mods, key) == ({
            let p = parts[i];
            match modifier_flag(lower_text(p)) {
                Some(m) => fold_parts(parts.skip(i + 1), mods | m, key),
                None => match key_for_upper(upper_text(p)) {
                    Some(k) => if key is Some {
                        Err(None)
                    } else {
                        fold_parts(parts.skip(i + 1), mods, Some(k))
                    },
                    None => Err(Some(p)),
                },
            }
        }),
{
    assert(parts.skip(i).drop_first() =~= parts.skip(i + 1));
    assert(parts.skip(i)[0] == parts[i]);
}

/// Parse a hotkey string like "Ctrl+Shift+F7" into a HotkeyCombo.
///
/// Surrounding white space is ignored, parts are separated by `+`, each
/// part (trimmed) is a modifier name or a key name, and exactly one key
/// name must be present.
pub fn parse_hotkey(hotkey: &str) -> (r: Result<HotkeyCombo, KeyflowError>)
    ensures
        match r {
            Ok(combo) => parse_hotkey_spec(hotkey@) == Ok::<(Key, u16), Seq<char>>(
                (combo.key, combo.modifiers),
            ),
            Err(KeyflowError::HotkeyRegistration { hotkey: input, reason }) => input@ == trim(hotkey@)
                && parse_hotkey_spec(hotkey@) == Err::<(Key, u16), Seq<char>>(reason@),
            Err(_) => false,
        },
{
    let v = chars_of(hotkey);
    let t = trim_chars(v.as_slice());
    if t.len() == 0 {
        return Err(
            KeyflowError::HotkeyRegistration {
                hotkey: string_of(t.as_slice()),
                reason: "empty hotkey string".to_owned(),
            },
        );
    }
    let raw = split_chars(t.as_slice(), '+');
    let ghost parts = hotkey_parts(t@);
    let mut mods: u16 = 0;
    let mut key: Option<Key> = None;
    let mut i: usize = 0;
    assert(parts.skip(0) =~= parts);
    while i < raw.len()
        invariant
            0 <= i <= raw@.len(),
            views(raw@) == split_on(t@, '+'),
            parts == hotkey_parts(t@),
            parts.len() == raw@.len(),
            t@ == trim(hotkey@),
            t@.len() > 0,
            fold_parts(parts, 0, None) == fold_parts(parts.skip(i as int), mods, key),
        decreases raw.len() - i,
    {
        let part = trim_chars(raw[i].as_slice());
        let name = string_of(part.as_slice());
        proof {
            assert(views(raw@)[i as int] == raw@[i as int]@);
            assert(parts[i as int] == part@);
            lemma_fold_step(parts, i as int, mods, key);
        }
        match parse_modifier(name.as_str()) {
            Some(m) => {
                mods = mods | m;
            },
            None => match key_from_name(name.as_str()) {
                Some(k) => {
                    if key.is_some() {
                        return Err(
                            KeyflowError::HotkeyRegistration {
                                hotkey: string_of(t.as_slice()),
                                reason: "multiple key names (only one non-modifier key allowed)".to_owned(),
                            },
                        );
                    }
                    key = Some(k);
                },
                None => {
                    let mut reason = "unknown key name: '".to_owned();
                    reason.append(name.as_str());
                    reason.append("'");
                    return Err(
                        KeyflowError::HotkeyRegistration { hotkey: string_of(t.as_slice()), reason },
                    );
                },
            },
        }
        i = i + 1;
    }
    assert(parts.skip(raw@.len() as int) =~= Seq::<Seq<char>>::empty());
    match key {
        Some(k) => Ok(HotkeyCombo { key: k, modifiers: mods }),
        None => Err(
            KeyflowError::HotkeyRegistration {
                hotkey: string_of(t.as_slice()),
                reason: "no key specified (only modifiers)".to_owned(),
            },
        ),
    }
}

/// Surrounding white space does not matter to a hotkey string.
pub proof fn lemma_parse_ignores_surrounding_space(s: Seq<char>)
    ensures
        parse_hotkey_spec(trim(s)) == parse_hotkey_spec(s),
{
    lemma_trim_idempotent(s);
}

proof fn lemma_fold_mods_within(parts: Seq<Seq<char>>, mods: u16, key: Option<Key>)
    requires
        mods & !0xFu16 == 0,
    ensures
        fold_parts(parts, mods, key) matches Ok((m, _)) ==> m & !0xFu16 == 0,
    decreases parts.len(),
{
    if parts.len() > 0 {
        let p = parts[0];
        match modifier_flag(lower_text(p)) {
            Some(m) => {
                assert((mods | m) & !0xFu16 == 0) by (bit_vector)
                    requires
                        mods & !0xFu16 == 0,
                        m == 1u16 || m == 2u16 || m == 4u16 || m == 8u16,
                ;
                lemma_fold_mods_within(parts.drop_first(), mods | m, key);
            },
            None => match key_for_upper(upper_text(p)) {
                Some(k) => {
                    if key is None {
                        lemma_fold_mods_within(parts.drop_first(), mods, Some(k));
                    }
                },
                None => {},
            },
        }
    }
}

/// A parsed hotkey only ever carries the four modifier flags.
pub proof fn lemma_parsed_modifiers_are_flags(s: Seq<char>)
    ensures
        parse_hotkey_spec(s) matches Ok((_, m)) ==> m & !modifiers::ALL_FLAGS == 0,
{
    assert(0u16 & !0xFu16 == 0) by (bit_vector);
    lemma_fold_mods_within(hotkey_parts(trim(s)), 0, None);
}

proof fn lemma_case_char(x: char, y: char)
    requires
        ascii_lower_char(x) == ascii_lower_char(y),
    ensures
        ascii_upper_char(x) == ascii_upper_char(y),
{
    let a = x as u32;
    let b = y as u32;
    if 'a' <= x && x <= 'z' {
        assert(!('A' <= x && x <= 'Z'));
    }
    if 'A' <= x && x <= 'Z' {
        assert(ascii_lower_char(x) as u32 == a + 32);
    }
    if 'A' <= y && y <= 'Z' {
        assert(ascii_lower_char(y) as u32 == b + 32);
    }
}

/// Key and modifier names are case-insensitive: ASCII names that differ
/// only in the case of their letters name the same key and the same
/// modifier.
pub proof fn lemma_names_case_insensitive(a: Seq<char>, b: Seq<char>)
    requires
        ascii_lower(a) == ascii_lower(b),
    ensures
        key_for_upper(ascii_upper(a)) == key_for_upper(ascii_upper(b)),
        modifier_flag(ascii_lower(a)) == modifier_flag(ascii_lower(b)),
{
    assert(a.len() == ascii_lower(a).len());
    assert(b.len() == ascii_lower(b).len());
    assert forall|i: int| 0 <= i < a.len() implies ascii_upper(a)[i] == ascii_upper(b)[i] by {
        assert(ascii_lower(a)[i] == ascii_lower(b)[i]);
        assert(ascii_lower(a)[i] == ascii_lower_char(a[i]));
        assert(ascii_lower(b)[i] == ascii_lower_char(b[i]));
        lemma_case_char(a[i], b[i]);
    }
    assert(ascii_upper(a) =~= ascii_upper(b));
}

/// Two outcomes of folding the parts agree: the same modifiers and key, or
/// both refused for the same kind of reason.
pub open spec fn same_fold(
    a: Result<(u16, Option<Key>), Option<Seq<char>>>,
    b: Result<(u16, Option<Key>), Option<Seq<char>>>,
) -> bool {
    match (a, b) {
        (Ok(x), Ok(y)) => x == y,
        (Err(None), Err(None)) => true,
        (Err(Some(_)), Err(Some(_))) => true,
        _ => false,
    }
}

proof fn lemma_fold_lower(parts: Seq<Seq<char>>, mods: u16, key: Option<Key>)
    requires
        forall|i: int| 0 <= i < parts.len() ==> is_ascii_text(#[trigger] parts[i]),
    ensures
        same_fold(
            fold_parts(parts, mods, key),
            fold_parts(parts.map_values(|p: Seq<char>| ascii_lower(p)), mods, key),
        ),
    decreases parts.len(),
{
    let lp = parts.map_values(|p: Seq<char>| ascii_lower(p));
    if parts.len() > 0 {
        let p = parts[0];
        assert(is_ascii_text(p));
        lemma_lower_text(p);
        assert(lp[0] == ascii_lower(p));
        assert(lower_text(lp[0]) == lower_text(p));
        assert(upper_text(lp[0]) == upper_text(p));
        let rest = parts.drop_first();
        assert(lp.drop_first() =~= rest.map_values(|p: Seq<char>| ascii_lower(p)));
        assert forall|i: int| 0 <= i < rest.len() implies is_ascii_text(#[trigger] rest[i]) by {
            assert(rest[i] == parts[i + 1]);
        }
        match modifier_flag(lower_text(p)) {
            Some(m) => {
                lemma_fold_lower(rest, mods | m, key);
            },
            None => match key_for_upper(upper_text(p)) {
                Some(k) => {
                    if key is None {
                        lemma_fold_lower(rest, mods, Some(k));
                    }
                },
                None => {},
            },
        }
    }
}

proof fn lemma_parse_lower(s: Seq<char>)
    requires
        is_ascii_text(s),
    ensures
        parse_hotkey_spec(s) is Ok <==> parse_hotkey_spec(ascii_lower(s)) is Ok,
        parse_hotkey_spec(s) is Ok ==> parse_hotkey_spec(s) == parse_hotkey_spec(ascii_lower(s)),
{
    let t = trim(s);
    lemma_trim_lower(s);
    lemma_lower_text(s);
    assert(is_ascii_text(t));
    let lt = ascii_lower(t);
    assert(trim(ascii_lower(s)) == lt);
    assert(lt.len() == t.len());
    lemma_split_lower(t);
    let pieces = split_on(t, '+');
    let parts = hotkey_parts(t);
    let lparts = hotkey_parts(lt);
    assert forall|i: int| 0 <= i < parts.len() implies is_ascii_text(#[trigger] parts[i]) by {
        assert(is_ascii_text(pieces[i]));
        lemma_lower_text(pieces[i]);
    }
    assert forall|i: int| 0 <= i < parts.len() implies #[trigger] lparts[i] == ascii_lower(
        parts[i],
    ) by {
        lemma_trim_lower(pieces[i]);
    }
    assert(lparts =~= parts.map_values(|p: Seq<char>| ascii_lower(p)));
    lemma_fold_lower(parts, 0, None);
}

/// Hotkey strings are case-insensitive: ASCII strings that differ only in
/// the case of their letters are accepted or refused alike, and when
/// accepted they give the same key and modifiers.
pub proof fn lemma_parse_case_insensitive(a: Seq<char>, b: Seq<char>)
    requires
        is_ascii_text(a),
        is_ascii_text(b),
        ascii_lower(a) == ascii_lower(b),
    ensures
        parse_hotkey_spec(a) is Ok <==> parse_hotkey_spec(b) is Ok,
        parse_hotkey_spec(a) is Ok ==> parse_hotkey_spec(a) == parse_hotkey_spec(b),
{
    lemma_parse_lower(a);
    lemma_parse_lower(b);
}

/// A name for each key, as `README`'s hotkey format lists them (upper
/// case): its letter or digit, `F1`..`F24`, its word, or its punctuation
/// character.
pub open spec fn key_name(k: Key) -> Seq<char> {
    match k {
        Key::A => seq!['A'],
        Key::B => seq!['B'],
        Key::C => seq!['C'],
        Key::D => seq!['D'],
        Key::E => seq!['E'],
        Key::F => seq!['F'],
        Key::G => seq!['G'],
        Key::H => seq!['H'],
        Key::I => seq!['I'],
        Key::J => seq!['J'],
        Key::K => seq!['K'],
        Key::L => seq!['L'],
        Key::M => seq!['M'],
        Key::N => seq!['N'],
        Key::O => seq!['O'],
        Key::P => seq!['P'],
        Key::Q => seq!['Q'],
        Key::R => seq!['R'],
        Key::S => seq!['S'],
        Key::T => seq!['T'],
        Key::U => seq!['U'],
        Key::V => seq!['V'],
        Key::W => seq!['W'],
        Key::X => seq!['X'],
        Key::Y => seq!['Y'],
        Key::Z => seq!['Z'],
        Key::Digit0 => seq!['0'],
        Key::Digit1 => seq!['1'],
        Key::Digit2 => seq!['2'],
        Key::Digit3 => seq!['3'],
        Key::Digit4 => seq!['4'],
        Key::Digit5 => seq!['5'],
        Key::Digit6 => seq!['6'],
        Key::Digit7 => seq!['7'],
        Key::Digit8 => seq!['8'],
        Key::Digit9 => seq!['9'],
        Key::F1 => seq!['F'] + decimal(1),
        Key::F2 => seq!['F'] + decimal(2),
        Key::F3 => seq!['F'] + decimal(3),
        Key::F4 => seq!['F'] + decimal(4),
        Key::F5 => seq!['F'] + decimal(5),
        Key::F6 => seq!['F'] + decimal(6),
        Key::F7 => seq!['F'] + decimal(7),
        Key::F8 => seq!['F'] + decimal(8),
        Key::F9 => seq!['F'] + decimal(9),
        Key::F10 => seq!['F'] + decimal(10),
        Key::F11 => seq!['F'] + decimal(11),
        Key::F12 => seq!['F'] + decimal(12),
        Key::F13 => seq!['F'] + decimal(13),
        Key::F14 => seq!['F'] + decimal(14),
        Key::F15 => seq!['F'] + decimal(15),
        Key::F16 => seq!['F'] + decimal(16),
        Key::F17 => seq!['F'] + decimal(17),
        Key::F18 => seq!['F'] + decimal(18),
        Key::F19 => seq!['F'] + decimal(19),
        Key::F20 => seq!['F'] + decimal(20),
        Key::F21 => seq!['F'] + decimal(21),
        Key::F22 => seq!['F'] + decimal(22),
        Key::F23 => seq!['F'] + decimal(23),
        Key::F24 => seq!['F'] + decimal(24),
        Key::Home => seq!['H', 'O', 'M', 'E'],
        Key::End => seq!['E', 'N', 'D'],
        Key::PageUp => seq!['P', 'A', 'G', 'E', 'U', 'P'],
        Key::PageDown => seq!['P', 'A', 'G', 'E', 'D', 'O', 'W', 'N'],
        Key::Up => seq!['U', 'P'],
        Key::Down => seq!['D', 'O', 'W', 'N'],
        Key::Left => seq!['L', 'E', 'F', 'T'],
        Key::Right => seq!['R', 'I', 'G', 'H', 'T'],
        Key::Insert => seq!['I', 'N', 'S', 'E', 'R', 'T'],
        Key::Delete => seq!['D', 'E', 'L', 'E', 'T', 'E'],
        Key::Tab => seq!['T', 'A', 'B'],
        Key::Enter => seq!['E', 'N', 'T', 'E', 'R'],
        Key::Escape => seq!['E', 'S', 'C'],
        Key::Backspace => seq!['B', 'A', 'C', 'K', 'S', 'P', 'A', 'C', 'E'],
        Key::Space => seq!['S', 'P', 'A', 'C', 'E'],
        Key::Minus => seq!['-'],
        Key::Equal => seq!['='],
        Key::BracketLeft => seq!['['],
        Key::BracketRight => seq![']'],
        Key::Backslash => seq!['\\'],
        Key::Semicolon => seq![';'],
        Key::Apostrophe => seq!['\''],
        Key::Grave => seq!['`'],
        Key::Comma => seq![','],
        Key::Period => seq!['.'],
        Key::Slash => seq!['/'],
    }
}

proof fn lemma_digit_roundtrip(d: nat)
    requires
        d < 10,
    ensures
        digit_char(d) as u32 == d + 48,
        digit_value(digit_char(d)) == d,
        digits_value(seq![digit_char(d)]) == d,
{
    let s = seq![digit_char(d)];
    assert(s.drop_last() =~= Seq::<char>::empty());
    assert(s.last() == digit_char(d));
    assert(digits_value(s.drop_last()) == 0);
    assert(digits_value(s) == digits_value(s.drop_last()) * 10 + digit_value(s.last()));
}

proof fn lemma_parse_small_decimal(n: u32)
    requires
        1 <= n <= 99,
    ensures
        parse_u32(decimal(n as nat)) == Some(n),
{
    let d = decimal(n as nat);
    if n < 10 {
        assert(d == seq![digit_char(n as nat)]);
        lemma_digit_roundtrip(n as nat);
    } else {
        let hi = (n / 10) as nat;
        let lo = (n % 10) as nat;
        assert(decimal(hi) == seq![digit_char(hi)]);
        assert(d == seq![digit_char(hi)].push(digit_char(lo)));
        lemma_digit_roundtrip(hi);
        lemma_digit_roundtrip(lo);
        assert(d.drop_last() =~= seq![digit_char(hi)]);
        assert(digits_value(d) == hi * 10 + lo);
    }
    assert(all_digits(d));
    assert(!(d.len() > 0 && d[0] == '+'));
}

/// Every function key `F1`..`F24` is recognised by its name.
pub proof fn lemma_function_keys_recognised(n: u32)
    requires
        1 <= n <= 24,
    ensures
        function_key(n) is Some,
        key_for_upper(seq!['F'] + decimal(n as nat)) == function_key(n),
{
    let u = seq!['F'] + decimal(n as nat);
    lemma_parse_small_decimal(n);
    assert(u.drop_first() =~= decimal(n as nat));
    assert(u[0] == 'F');
}

#[verifier::spinoff_prover]
#[verifier::rlimit(100)]
proof fn lemma_key_name_recognised(k: Key)
    ensures
        key_for_upper(key_name(k)) == Some(k),
{
    match k {
        Key::F1 => lemma_function_keys_recognised(1),
        Key::F2 => lemma_function_keys_recognised(2),
        Key::F3 => lemma_function_keys_recognised(3),
        Key::F4 => lemma_function_keys_recognised(4),
        Key::F5 => lemma_function_keys_recognised(5),
        Key::F6 => lemma_function_keys_recognised(6),
        Key::F7 => lemma_function_keys_recognised(7),
        Key::F8 => lemma_function_keys_recognised(8),
        Key::F9 => lemma_function_keys_recognised(9),
        Key::F10 => lemma_function_keys_recognised(10),
        Key::F11 => lemma_function_keys_recognised(11),
        Key::F12 => lemma_function_keys_recognised(12),
        Key::F13 => lemma_function_keys_recognised(13),
        Key::F14 => lemma_function_keys_recognised(14),
        Key::F15 => lemma_function_keys_recognised(15),
        Key::F16 => lemma_function_keys_recognised(16),
        Key::F17 => lemma_function_keys_recognised(17),
        Key::F18 => lemma_function_keys_recognised(18),
        Key::F19 => lemma_function_keys_recognised(19),
        Key::F20 => lemma_function_keys_recognised(20),
        Key::F21 => lemma_function_keys_recognised(21),
        Key::F22 => lemma_function_keys_recognised(22),
        Key::F23 => lemma_function_keys_recognised(23),
        Key::F24 => lemma_function_keys_recognised(24),
        _ => {},
    }
}

/// Every key is recognised by its name, whatever the case of its letters:
/// each letter, digit, `F1`..`F24`, named key and punctuation key.
pub proof fn lemma_every_key_has_a_name(k: Key)
    ensures
        is_ascii_text(key_name(k)),
        ascii_upper(key_name(k)) == key_name(k),
        key_for_upper(key_name(k)) == Some(k),
{
    let name = key_name(k);
    lemma_key_name_recognised(k);
    assert forall|i: int| 0 <= i < name.len() implies (#[trigger] name[i] as u32) < 128 by {
        lemma_key_name_char(k, i);
    }
    assert(ascii_upper(name) =~= name) by {
        assert forall|i: int| 0 <= i < name.len() implies ascii_upper(name)[i] == name[i] by {
            lemma_key_name_char(k, i);
        }
    }
}

proof fn lemma_key_name_char(k: Key, i: int)
    requires
        0 <= i < key_name(k).len(),
    ensures
        (key_name(k)[i] as u32) < 128,
        !('a' <= key_name(k)[i] && key_name(k)[i] <= 'z'),
{
    match k {
        Key::F1 => lemma_decimal_chars(1, i - 1),
        Key::F2 => lemma_decimal_chars(2, i - 1),
        Key::F3 => lemma_decimal_chars(3, i - 1),
        Key::F4 => lemma_decimal_chars(4, i - 1),
        Key::F5 => lemma_decimal_chars(5, i - 1),
        Key::F6 => lemma_decimal_chars(6, i - 1),
        Key::F7 => lemma_decimal_chars(7, i - 1),
        Key::F8 => lemma_decimal_chars(8, i - 1),
        Key::F9 => lemma_decimal_chars(9, i - 1),
        Key::F10 => lemma_decimal_chars(10, i - 1),
        Key::F11 => lemma_decimal_chars(11, i - 1),
        Key::F12 => lemma_decimal_chars(12, i - 1),
        Key::F13 => lemma_decimal_chars(13, i - 1),
        Key::F14 => lemma_decimal_chars(14, i - 1),
        Key::F15 => lemma_decimal_chars(15, i - 1),
        Key::F16 => lemma_decimal_chars(16, i - 1),
        Key::F17 => lemma_decimal_chars(17, i - 1),
        Key::F18 => lemma_decimal_chars(18, i - 1),
        Key::F19 => lemma_decimal_chars(19, i - 1),
        Key::F20 => lemma_decimal_chars(20, i - 1),
        Key::F21 => lemma_decimal_chars(21, i - 1),
        Key::F22 => lemma_decimal_chars(22, i - 1),
        Key::F23 => lemma_decimal_chars(23, i - 1),
        Key::F24 => lemma_decimal_chars(24, i - 1),
        _ => {},
    }
}

proof fn lemma_decimal_chars(n: u32, i: int)
    requires
        1 <= n <= 99,
    ensures
        0 <= i < decimal(n as nat).len() ==> '0' <= decimal(n as nat)[i] <= '9',
{
    let d = decimal(n as nat);
    if n < 10 {
        assert(d == seq![digit_char(n as nat)]);
        lemma_digit_roundtrip(n as nat);
    } else {
        let hi = (n / 10) as nat;
        let lo = (n % 10) as nat;
        assert(decimal(hi) == seq![digit_char(hi)]);
        assert(d == seq![digit_char(hi)].push(digit_char(lo)));
        lemma_digit_roundtrip(hi);
        lemma_digit_roundtrip(lo);
    }
}


/// A name longer than one character that does not start with `F` names a
/// key only as a word.
proof fn lemma_word_names(u: Seq<char>)
    requires
        u.len() > 1,
        u[0] != 'F',
    ensures
        key_for_upper(u) == word_key(u),
{
}

#[verifier::spinoff_prover]
proof fn lemma_alias_minus()
    ensures
        key_for_upper(seq!['M', 'I', 'N', 'U', 'S']) == Some(Key::Minus),
        key_for_upper(seq!['-']) == Some(Key::Minus),
{
    lemma_word_names(seq!['M', 'I', 'N', 'U', 'S']);
}

#[verifier::spinoff_prover]
proof fn lemma_alias_equal()
    ensures
        key_for_upper(seq!['E', 'Q', 'U', 'A', 'L']) == Some(Key::Equal),
        key_for_upper(seq!['=']) == Some(Key::Equal),
{
    lemma_word_names(seq!['E', 'Q', 'U', 'A', 'L']);
}

#[verifier::spinoff_prover]
proof fn lemma_alias_bracketleft()
    ensures
        key_for_upper(seq!['B', 'R', 'A', 'C', 'K', 'E', 'T', 'L', 'E', 'F', 'T']) == Some(Key::BracketLeft),
        key_for_upper(seq!['[']) == Some(Key::BracketLeft),
{
    lemma_word_names(seq!['B', 'R', 'A', 'C', 'K', 'E', 'T', 'L', 'E', 'F', 'T']);
}

#[verifier::spinoff_prover]
proof fn lemma_alias_bracketright()
    ensures
        key_for_upper(seq!['B', 'R', 'A', 'C', 'K', 'E', 'T', 'R', 'I', 'G', 'H', 'T']) == Some(Key::BracketRight),
        key_for_upper(seq![']']) == Some(Key::BracketRight),
{
    lemma_word_names(seq!['B', 'R', 'A', 'C', 'K', 'E', 'T', 'R', 'I', 'G', 'H', 'T']);
}

#[verifier::spinoff_prover]
proof fn lemma_alias_backslash()
    ensures
        key_for_upper(seq!['B', 'A', 'C', 'K', 'S', 'L', 'A', 'S', 'H']) == Some(Key::Backslash),
        key_for_upper(seq!['\\']) == Some(Key::Backslash),
{
    lemma_word_names(seq!['B', 'A', 'C', 'K', 'S', 'L', 'A', 'S', 'H']);
}

#[verifier::spinoff_prover]
proof fn lemma_alias_semicolon()
    ensures
        key_for_upper(seq!['S', 'E', 'M', 'I', 'C', 'O', 'L', 'O', 'N']) == Some(Key::Semicolon),
        key_for_upper(seq![';']) == Some(Key::Semicolon),
{
    lemma_word_names(seq!['S', 'E', 'M', 'I', 'C', 'O', 'L', 'O', 'N']);
}

#[verifier::spinoff_prover]
proof fn lemma_alias_apostrophe()
    ensures
        key_for_upper(seq!['A', 'P', 'O', 'S', 'T', 'R', 'O', 'P', 'H', 'E']) == Some(Key::Apostrophe),
        key_for_upper(seq!['\'']) == Some(Key::Apostrophe),
{
    lemma_word_names(seq!['A', 'P', 'O', 'S', 'T', 'R', 'O', 'P', 'H', 'E']);
}

#[verifier::spinoff_prover]
proof fn lemma_alias_grave()
    ensures
        key_for_upper(seq!['G', 'R', 'A', 'V', 'E']) == Some(Key::Grave),
        key_for_upper(seq!['`']) == Some(Key::Grave),
{
    lemma_word_names(seq!['G', 'R', 'A', 'V', 'E']);
}

#[verifier::spinoff_prover]
proof fn lemma_alias_comma()
    ensures
        key_for_upper(seq!['C', 'O', 'M', 'M', 'A']) == Some(Key::Comma),
        key_for_upper(seq![',']) == Some(Key::Comma),
{
    lemma_word_names(seq!['C', 'O', 'M', 'M', 'A']);
}

#[verifier::spinoff_prover]
proof fn lemma_alias_period()
    ensures
        key_for_upper(seq!['P', 'E', 'R', 'I', 'O', 'D']) == Some(Key::Period),
        key_for_upper(seq!['.']) == Some(Key::Period),
{
    lemma_word_names(seq!['P', 'E', 'R', 'I', 'O', 'D']);
}

#[verifier::spinoff_prover]
proof fn lemma_alias_slash()
    ensures
        key_for_upper(seq!['S', 'L', 'A', 'S', 'H']) == Some(Key::Slash),
        key_for_upper(seq!['/']) == Some(Key::Slash),
{
    lemma_word_names(seq!['S', 'L', 'A', 'S', 'H']);
}

#[verifier::spinoff_prover]
proof fn lemma_alias_escape()
    ensures
        key_for_upper(seq!['E', 'S', 'C']) == Some(Key::Escape),
        key_for_upper(seq!['E', 'S', 'C', 'A', 'P', 'E']) == Some(Key::Escape),
{
    lemma_word_names(seq!['E', 'S', 'C']);
    lemma_word_names(seq!['E', 'S', 'C', 'A', 'P', 'E']);
}

#[verifier::spinoff_prover]
proof fn lemma_alias_enter()
    ensures
        key_for_upper(seq!['E', 'N', 'T', 'E', 'R']) == Some(Key::Enter),
        key_for_upper(seq!['R', 'E', 'T', 'U', 'R', 'N']) == Some(Key::Enter),
{
    lemma_word_names(seq!['E', 'N', 'T', 'E', 'R']);
    lemma_word_names(seq!['R', 'E', 'T', 'U', 'R', 'N']);
}

#[verifier::spinoff_prover]
proof fn lemma_alias_delete()
    ensures
        key_for_upper(seq!['D', 'E', 'L', 'E', 'T', 'E']) == Some(Key::Delete),
        key_for_upper(seq!['D', 'E', 'L']) == Some(Key::Delete),
{
    lemma_word_names(seq!['D', 'E', 'L', 'E', 'T', 'E']);
    lemma_word_names(seq!['D', 'E', 'L']);
}

#[verifier::spinoff_prover]
proof fn lemma_alias_insert()
    ensures
        key_for_upper(seq!['I', 'N', 'S', 'E', 'R', 'T']) == Some(Key::Insert),
        key_for_upper(seq!['I', 'N', 'S']) == Some(Key::Insert),
{
    lemma_word_names(seq!['I', 'N', 'S', 'E', 'R', 'T']);
    lemma_word_names(seq!['I', 'N', 'S']);
}

#[verifier::spinoff_prover]
proof fn lemma_alias_pageup()
    ensures
        key_for_upper(seq!['P', 'A', 'G', 'E', 'U', 'P']) == Some(Key::PageUp),
        key_for_upper(seq!['P', 'G', 'U', 'P']) == Some(Key::PageUp),
{
    lemma_word_names(seq!['P', 'A', 'G', 'E', 'U', 'P']);
    lemma_word_names(seq!['P', 'G', 'U', 'P']);
}

#[verifier::spinoff_prover]
proof fn lemma_alias_pagedown()
    ensures
        key_for_upper(seq!['P', 'A', 'G', 'E', 'D', 'O', 'W', 'N']) == Some(Key::PageDown),
        key_for_upper(seq!['P', 'G', 'D', 'N']) == Some(Key::PageDown),
{
    lemma_word_names(seq!['P', 'A', 'G', 'E', 'D', 'O', 'W', 'N']);
    lemma_word_names(seq!['P', 'G', 'D', 'N']);
}

/// Every alias names the same key as the key's own name: each punctuation
/// key's word (`SLASH`, `MINUS`, ...) and its character (`/`, `-`, ...)
/// denote that key, and so do `ESC`/`ESCAPE`, `ENTER`/`RETURN`,
/// `DELETE`/`DEL`, `INSERT`/`INS`, `PAGEUP`/`PGUP` and `PAGEDOWN`/`PGDN`.
pub proof fn lemma_key_aliases_agree()
    ensures
        key_for_upper(seq!['M', 'I', 'N', 'U', 'S']) == key_for_upper(seq!['-']),
        key_for_upper(seq!['-']) == Some(Key::Minus),
        key_for_upper(seq!['E', 'Q', 'U', 'A', 'L']) == key_for_upper(seq!['=']),
        key_for_upper(seq!['=']) == Some(Key::Equal),
        key_for_upper(seq!['B', 'R', 'A', 'C', 'K', 'E', 'T', 'L', 'E', 'F', 'T']) == key_for_upper(seq!['[']),
        key_for_upper(seq!['[']) == Some(Key::BracketLeft),
        key_for_upper(seq!['B', 'R', 'A', 'C', 'K', 'E', 'T', 'R', 'I', 'G', 'H', 'T']) == key_for_upper(seq![']']),
        key_for_upper(seq![']']) == Some(Key::BracketRight),
        key_for_upper(seq!['B', 'A', 'C', 'K', 'S', 'L', 'A', 'S', 'H']) == key_for_upper(seq!['\\']),
        key_for_upper(seq!['\\']) == Some(Key::Backslash),
        key_for_upper(seq!['S', 'E', 'M', 'I', 'C', 'O', 'L', 'O', 'N']) == key_for_upper(seq![';']),
        key_for_upper(seq![';']) == Some(Key::Semicolon),
        key_for_upper(seq!['A', 'P', 'O', 'S', 'T', 'R', 'O', 'P', 'H', 'E']) == key_for_upper(seq!['\'']),
        key_for_upper(seq!['\'']) == Some(Key::Apostrophe),
        key_for_upper(seq!['G', 'R', 'A', 'V', 'E']) == key_for_upper(seq!['`']),
        key_for_upper(seq!['`']) == Some(Key::Grave),
        key_for_upper(seq!['C', 'O', 'M', 'M', 'A']) == key_for_upper(seq![',']),
        key_for_upper(seq![',']) == Some(Key::Comma),
        key_for_upper(seq!['P', 'E', 'R', 'I', 'O', 'D']) == key_for_upper(seq!['.']),
        key_for_upper(seq!['.']) == Some(Key::Period),
        key_for_upper(seq!['S', 'L', 'A', 'S', 'H']) == key_for_upper(seq!['/']),
        key_for_upper(seq!['/']) == Some(Key::Slash),
        key_for_upper(seq!['E', 'S', 'C']) == key_for_upper(seq!['E', 'S', 'C', 'A', 'P', 'E']),
        key_for_upper(seq!['E', 'S', 'C']) == Some(Key::Escape),
        key_for_upper(seq!['E', 'N', 'T', 'E', 'R']) == key_for_upper(seq!['R', 'E', 'T', 'U', 'R', 'N']),
        key_for_upper(seq!['E', 'N', 'T', 'E', 'R']) == Some(Key::Enter),
        key_for_upper(seq!['D', 'E', 'L', 'E', 'T', 'E']) == key_for_upper(seq!['D', 'E', 'L']),
        key_for_upper(seq!['D', 'E', 'L', 'E', 'T', 'E']) == Some(Key::Delete),
        key_for_upper(seq!['I', 'N', 'S', 'E', 'R', 'T']) == key_for_upper(seq!['I', 'N', 'S']),
        key_for_upper(seq!['I', 'N', 'S', 'E', 'R', 'T']) == Some(Key::Insert),
        key_for_upper(seq!['P', 'A', 'G', 'E', 'U', 'P']) == key_for_upper(seq!['P', 'G', 'U', 'P']),
        key_for_upper(seq!['P', 'A', 'G', 'E', 'U', 'P']) == Some(Key::PageUp),
        key_for_upper(seq!['P', 'A', 'G', 'E', 'D', 'O', 'W', 'N']) == key_for_upper(seq!['P', 'G', 'D', 'N']),
        key_for_upper(seq!['P', 'A', 'G', 'E', 'D', 'O', 'W', 'N']) == Some(Key::PageDown),
{
    lemma_alias_minus();
    lemma_alias_equal();
    lemma_alias_bracketleft();
    lemma_alias_bracketright();
    lemma_alias_backslash();
    lemma_alias_semicolon();
    lemma_alias_apostrophe();
    lemma_alias_grave();
    lemma_alias_comma();
    lemma_alias_period();
    lemma_alias_slash();
    lemma_alias_escape();
    lemma_alias_enter();
    lemma_alias_delete();
    lemma_alias_insert();
    lemma_alias_pageup();
    lemma_alias_pagedown();
}

} // verus!
