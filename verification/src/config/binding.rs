//! Hotkey binding definition.
use vstd::prelude::*;

verus! {

/// Input mode for a binding — controls how text is delivered to the target
/// field.
#[derive(Debug, Clone, Copy, PartialEq, Eq, Structural)]
pub enum InputMode {
    /// Default — currently equivalent to `type`. Reserved for future heuristics.
    Auto,
    /// Character-by-character XTEST input. Works in paste-disabled fields.
    Type,
    /// Ctrl+V clipboard paste. Preserves formatting, fast for CJK.
    Paste,
}

impl Default for InputMode {
    fn default() -> (r: Self)
        ensures
            r == InputMode::Auto,
    {
        InputMode::Auto
    }
}

/// The configuration name of an input mode.
pub open spec fn input_mode_name(m: InputMode) -> Seq<char> {
    match m {
        InputMode::Auto => seq!['a', 'u', 't', 'o'],
        InputMode::Type => seq!['t', 'y', 'p', 'e'],
        InputMode::Paste => seq!['p', 'a', 's', 't', 'e'],
    }
}

impl InputMode {
    /// The configuration name of the mode (`auto`, `type`, `paste`).
    pub fn name(&self) -> (r: String)
        ensures
            r@ == input_mode_name(*self),
    {
        let chars: &[char] = match self {
            InputMode::Auto => &['a', 'u', 't', 'o'],
            InputMode::Type => &['t', 'y', 'p', 'e'],
            InputMode::Paste => &['p', 'a', 's', 't', 'e'],
        };
        crate::text::string_of(chars)
    }

    /// Whether text is typed character by character (`type`, and `auto`,
    /// which currently behaves like `type`) rather than pasted.
    pub fn types_characters(&self) -> (r: bool)
        ensures
            r == (*self != InputMode::Paste),
    {
        match self {
            InputMode::Type | InputMode::Auto => true,
            InputMode::Paste => false,
        }
    }
}

/// A binding maps a hotkey to a password provider.
#[derive(Debug, Clone)]
pub struct Binding {
    /// Human-readable name for this binding.
    pub name: String,
    /// Hotkey to trigger this binding (e.g., "F7", "F8").
    pub hotkey: String,
    /// Provider type to use ("clipboard" or "bitwarden").
    pub provider: String,
    /// Item ID for provider-specific lookup (e.g., Bitwarden item ID).
    pub item_id: Option<String>,
    /// Input mode — how text is delivered to the target field.
    pub input_mode: InputMode,
    /// Seconds before the clipboard is cleared after input, overriding the
    /// global setting (0 = don't clear).
    pub clipboard_clear_after_secs: Option<u64>,
}

impl Binding {
    /// Seconds to wait before clearing the clipboard: the binding's own
    /// setting takes priority over the global one.
    pub fn clear_after_secs(&self, global: u64) -> (r: u64)
        ensures
            r == match self.clipboard_clear_after_secs {
                Some(s) => s,
                None => global,
            },
    {
        match self.clipboard_clear_after_secs {
            Some(s) => s,
            None => global,
        }
    }
}

} // verus!
