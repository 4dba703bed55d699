//! Input simulation — keyboard and mouse control.
//!
//! The engine that sends the events belongs to the application.
use crate::error::InputError;
use vstd::prelude::*;

verus! {

/// Trait for input simulation (keyboard + mouse).
pub trait InputEngine: Send + Sync {
    /// Get the current mouse cursor position.
    fn get_mouse_position(&self) -> Result<(i32, i32), InputError>;

    /// Click at the specified screen coordinates.
    fn click_at(&self, x: i32, y: i32) -> Result<(), InputError>;

    /// Type text by simulating keystrokes.
    fn type_text(&self, text: &str) -> Result<(), InputError>;

    /// Paste the clipboard's content by simulating Ctrl+V.
    fn paste_from_clipboard(&self) -> Result<(), InputError>;
}

} // verus!
