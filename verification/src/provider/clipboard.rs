//! Clipboard-based password provider.
use crate::error::ProviderError;
use crate::provider::PasswordProvider;
use crate::text::{concat_str, has_prefix, trim, trim_str};
use vstd::prelude::*;

verus! {

/// `arboard::Clipboard`, the handle on the system clipboard.
#[verifier::external_type_specification]
#[verifier::external_body]
pub struct ExClipboard(arboard::Clipboard);

/// Calls `arboard::Clipboard::new`; an error is given as its text. Nothing is
/// claimed: access depends on the desktop session.
#[verifier::external_body]
fn clipboard_new() -> (r: Result<arboard::Clipboard, String>) {
    arboard::Clipboard::new().map_err(|e| e.to_string())
}

/// Calls `arboard::Clipboard::get_text`; an error is given as its text.
/// Nothing is claimed of the text: it is whatever the clipboard holds.
#[verifier::external_body]
fn clipboard_get_text(cb: &mut arboard::Clipboard) -> (r: Result<String, String>) {
    cb.get_text().map_err(|e| e.to_string())
}

/// Reads the password from the system clipboard.
pub struct ClipboardProvider;

impl ClipboardProvider {
    pub fn new() -> (r: Self) {
        ClipboardProvider
    }
}

/// The password that clipboard text yields: the text without surrounding
/// white space, which must not be empty.
pub fn password_from_clipboard_text(text: &str) -> (r: Result<String, ProviderError>)
    ensures
        trim(text@).len() == 0 ==> r matches Err(ProviderError::ClipboardEmpty),
        trim(text@).len() > 0 ==> (r matches Ok(p) && p@ == trim(text@)),
{
    let t = trim_str(text);
    if t.as_str().is_empty() {
        Err(ProviderError::ClipboardEmpty)
    } else {
        Ok(t)
    }
}

/// Why the system clipboard gave no text: it could not be opened, or its
/// text could not be read; each with the clipboard library's message.
pub enum ClipboardFailure {
    Open(String),
    Read(String),
}

/// `r` is what reading the clipboard with outcome `read` yields: the
/// password of the text (see `password_from_clipboard_text`), or an error
/// that says which step failed and why.
pub open spec fn clipboard_answer(
    read: Result<String, ClipboardFailure>,
    r: Result<String, ProviderError>,
) -> bool {
    match read {
        Ok(t) => if trim(t@).len() == 0 {
            r matches Err(ProviderError::ClipboardEmpty)
        } else {
            r matches Ok(p) && p@ == trim(t@)
        },
        Err(ClipboardFailure::Open(e)) => r matches Err(ProviderError::ClipboardError(m)) && m@
            == "Failed to access clipboard: "@ + e@,
        Err(ClipboardFailure::Read(e)) => r matches Err(ProviderError::ClipboardError(m)) && m@
            == "Failed to read clipboard: "@ + e@,
    }
}

/// The password that an attempt to read the clipboard yields.
pub fn password_from_clipboard(read: Result<String, ClipboardFailure>) -> (r: Result<
    String,
    ProviderError,
>)
    ensures
        clipboard_answer(read, r),
{
    match read {
        Ok(t) => password_from_clipboard_text(t.as_str()),
        Err(ClipboardFailure::Open(e)) => Err(
            ProviderError::ClipboardError(concat_str("Failed to access clipboard: ", e.as_str())),
        ),
        Err(ClipboardFailure::Read(e)) => Err(
            ProviderError::ClipboardError(concat_str("Failed to read clipboard: ", e.as_str())),
        ),
    }
}

/// Open the system clipboard and read its text.
fn read_clipboard() -> (r: Result<String, ClipboardFailure>) {
    match clipboard_new() {
        Ok(mut clipboard) => match clipboard_get_text(&mut clipboard) {
            Ok(t) => Ok(t),
            Err(e) => Err(ClipboardFailure::Read(e)),
        },
        Err(e) => Err(ClipboardFailure::Open(e)),
    }
}

impl PasswordProvider for ClipboardProvider {
    /// The clipboard's text, trimmed; what the clipboard holds is read at
    /// the call, so the contract says what follows from every outcome.
    fn get_password(&self) -> (r: Result<String, ProviderError>)
        ensures
            exists|read: Result<String, ClipboardFailure>| clipboard_answer(read, r),
            match r {
                Ok(p) => p@.len() > 0 && trim(p@) == p@,
                Err(ProviderError::ClipboardEmpty) => true,
                Err(ProviderError::ClipboardError(msg)) => has_prefix(
                    msg@,
                    "Failed to access clipboard: "@,
                ) || has_prefix(msg@, "Failed to read clipboard: "@),
                Err(_) => false,
            },
    {
        let read = read_clipboard();
        let ghost outcome = read;
        let r = password_from_clipboard(read);
        proof {
            match outcome {
                Ok(t) => {
                    crate::text::lemma_trim_idempotent(t@);
                },
                Err(ClipboardFailure::Open(e)) => {
                    assert(("Failed to access clipboard: "@ + e@).take(
                        "Failed to access clipboard: "@.len() as int,
                    ) =~= "Failed to access clipboard: "@);
                },
                Err(ClipboardFailure::Read(e)) => {
                    assert(("Failed to read clipboard: "@ + e@).take(
                        "Failed to read clipboard: "@.len() as int,
                    ) =~= "Failed to read clipboard: "@);
                },
            }
        }
        r
    }

    fn name(&self) -> (r: &str)
        ensures
            r@ == "clipboard"@,
    {
        "clipboard"
    }
}

} // verus!
