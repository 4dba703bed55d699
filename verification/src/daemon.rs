//! Decisions of the daemon.
//!
//! The daemon loads the config, registers a hotkey per binding and, on each
//! hotkey press, runs the trigger sequence: get the mouse position, wait for
//! the modifier keys to be released, click to focus the target, get the
//! password, input it (typed or pasted), and schedule the clipboard clear.
//! The application performs each action; what comes next is decided here.
use crate::config::binding::{Binding, InputMode};
use crate::config::{Config, ProviderConfig};
use crate::provider::bitwarden::{bw_candidate, resolved_cli_path};
use crate::provider::{create_provider, ConfiguredProvider};
use crate::error::{InputError, ProviderError};
use crate::text::{concat_str, str_eq};
use vstd::prelude::*;

verus! {

/// The provider configuration a binding uses: the first configured provider
/// of its type, or, when there is none, a default one of that type whose CLI
/// path is empty (meaning: search for it).
pub fn provider_config_for(config: &Config, binding: &Binding) -> (r: ProviderConfig)
    ensures
        r.provider_type@ == binding.provider@,
        match config.find_provider_spec(binding.provider@) {
            Some(p) => match (r.cli_path, p.cli_path) {
                (Some(a), Some(b)) => a@ == b@,
                (None, None) => true,
                _ => false,
            },
            None => r.cli_path matches Some(c) && c@.len() == 0,
        },
{
    match config.find_provider(binding.provider.as_str()) {
        Some(p) => ProviderConfig {
            provider_type: p.provider_type.clone(),
            cli_path: match &p.cli_path {
                Some(c) => Some(c.clone()),
                None => None,
            },
        },
        None => ProviderConfig { provider_type: binding.provider.clone(), cli_path: Some(String::new()) },
    }
}

/// What the daemon does with a binding at start-up.
pub enum BindingSetup {
    /// Register the hotkey with this provider.
    Ready(ConfiguredProvider),
    /// Leave the binding out; the warning says why.
    Skip(String),
}

/// Set up a binding: create the provider its configuration names, or skip
/// it when the provider type is unknown.
pub fn binding_setup(config: &Config, binding: &Binding) -> (r: BindingSetup)
    ensures
        binding.provider@ == "clipboard"@ ==> r matches BindingSetup::Ready(
            ConfiguredProvider::Clipboard(_),
        ),
        binding.provider@ == "bitwarden"@ ==> (r matches BindingSetup::Ready(
            ConfiguredProvider::Bitwarden(b),
        ) && match config.find_provider_spec(binding.provider@) {
            Some(p) => resolved_cli_path(p.cli_path, b.cli_path_view()),
            None => bw_candidate(b.cli_path_view()),
        }),
        binding.provider@ != "clipboard"@ && binding.provider@ != "bitwarden"@ ==> (r matches BindingSetup::Skip(
            m,
        ) && m@ == "Skipping binding '"@ + binding.name@ + "': unknown provider '"@
            + binding.provider@ + "'"@),
{
    let provider_config = provider_config_for(config, binding);
    match create_provider(&provider_config) {
        Some(p) => BindingSetup::Ready(p),
        None => {
            let mut m = "Skipping binding '".to_owned();
            m.append(binding.name.as_str());
            m.append("': unknown provider '");
            m.append(binding.provider.as_str());
            m.append("'");
            BindingSetup::Skip(m)
        },
    }
}

/// Where a hotkey trigger stands.
#[derive(Debug)]
pub enum TriggerState {
    /// Nothing done yet.
    Start,
    /// Waiting for the mouse position.
    Locating,
    /// Waiting for the modifier keys to be released, then click at `(x, y)`.
    Settling(i32, i32),
    /// Waiting for the click.
    Clicking,
    /// Waiting for the password.
    Fetching,
    /// Waiting for the text to be input.
    Delivering(String),
    /// Finished (successfully or not).
    Done,
}

/// What happened since the last action.
pub enum TriggerEvent {
    /// The hotkey was pressed.
    Pressed,
    /// The mouse position was read.
    MousePosition(Result<(i32, i32), InputError>),
    /// The wait for the modifier keys is over.
    Settled,
    /// The click was made.
    Clicked(Result<(), InputError>),
    /// The provider answered.
    Password(Result<String, ProviderError>),
    /// The text was typed or pasted.
    Delivered(Result<(), InputError>),
}

/// What the application does next.
pub enum TriggerAction {
    /// Read the mouse position.
    GetMousePosition,
    /// Wait (200 ms) for the hotkey's modifier keys to be released.
    WaitForModifierRelease,
    /// Click at the position, to focus the target field.
    ClickAt(i32, i32),
    /// Ask the provider for the password: for this item, when there is one.
    FetchPassword(Option<String>),
    /// Type the text character by character.
    TypeText(String),
    /// Put the text on the clipboard and paste it (Ctrl+V).
    PasteText(String),
    /// After this many seconds, clear the clipboard if it still holds this
    /// text; the trigger is then finished.
    ScheduleClipboardClear(u64, String),
    /// The trigger is finished.
    Finish,
    /// The trigger failed; the message says why.
    Fail(String),
}

/// The sequence of one hotkey trigger for a binding.
pub struct Trigger {
    item_id: Option<String>,
    input_mode: InputMode,
    clear_secs: u64,
    state: TriggerState,
}

/// The event is the one the state waits for.
pub open spec fn accepts(state: TriggerState, event: TriggerEvent) -> bool {
    match (state, event) {
        (TriggerState::Start, TriggerEvent::Pressed) => true,
        (TriggerState::Locating, TriggerEvent::MousePosition(_)) => true,
        (TriggerState::Settling(_, _), TriggerEvent::Settled) => true,
        (TriggerState::Clicking, TriggerEvent::Clicked(_)) => true,
        (TriggerState::Fetching, TriggerEvent::Password(_)) => true,
        (TriggerState::Delivering(_), TriggerEvent::Delivered(_)) => true,
        _ => false,
    }
}

/// A failure message: `what` followed by the error's text.
pub open spec fn failure_message(action: TriggerAction, what: Seq<char>, error_text: Seq<char>) -> bool {
    action matches TriggerAction::Fail(m) && m@ == what + error_text
}

/// The transition of a trigger from `state` on `event` to `next`, with
/// `action` to perform.
pub open spec fn trigger_step(
    item_id: Option<String>,
    mode: InputMode,
    clear_secs: u64,
    state: TriggerState,
    event: TriggerEvent,
    next: TriggerState,
    action: TriggerAction,
) -> bool {
    match (state, event) {
        (TriggerState::Start, TriggerEvent::Pressed) => next is Locating && action is GetMousePosition,
        (TriggerState::Locating, TriggerEvent::MousePosition(Ok((x, y)))) => next
            == TriggerState::Settling(x, y) && action is WaitForModifierRelease,
        (TriggerState::Locating, TriggerEvent::MousePosition(Err(e))) => next is Done
            && failure_message(
            action,
            "Failed to get mouse position: "@,
            crate::error::input_error_text(e),
        ),
        (TriggerState::Settling(x, y), TriggerEvent::Settled) => next is Clicking && action
            == TriggerAction::ClickAt(x, y),
        (TriggerState::Clicking, TriggerEvent::Clicked(Ok(()))) => next is Fetching && (
        action matches TriggerAction::FetchPassword(id) && match (id, item_id) {
            (Some(a), Some(b)) => a@ == b@,
            (None, None) => true,
            _ => false,
        }),
        (TriggerState::Clicking, TriggerEvent::Clicked(Err(e))) => next is Done && failure_message(
            action,
            "Failed to click: "@,
            crate::error::input_error_text(e),
        ),
        (TriggerState::Fetching, TriggerEvent::Password(Ok(p))) => next == TriggerState::Delivering(
            p,
        ) && if mode == InputMode::Paste {
            action == TriggerAction::PasteText(p)
        } else {
            action == TriggerAction::TypeText(p)
        },
        (TriggerState::Fetching, TriggerEvent::Password(Err(e))) => next is Done && failure_message(
            action,
            "Failed to get password: "@,
            crate::error::provider_error_text(e),
        ),
        (TriggerState::Delivering(p), TriggerEvent::Delivered(Ok(()))) => next is Done && if clear_secs
            > 0 {
            action == TriggerAction::ScheduleClipboardClear(clear_secs, p)
        } else {
            action is Finish
        },
        (TriggerState::Delivering(_), TriggerEvent::Delivered(Err(e))) => next is Done
            && failure_message(action, "Failed to input text: "@, crate::error::input_error_text(e)),
        _ => false,
    }
}

impl Trigger {
    pub closed spec fn item_id(&self) -> Option<String> {
        self.item_id
    }

    pub closed spec fn mode(&self) -> InputMode {
        self.input_mode
    }

    pub closed spec fn clear_secs(&self) -> u64 {
        self.clear_secs
    }

    pub closed spec fn state(&self) -> TriggerState {
        self.state
    }

    /// A trigger for a binding; the clipboard clear delay is the binding's
    /// own, else the global one.
    pub fn new(binding: &Binding, global_clear_secs: u64) -> (r: Self)
        ensures
            match (r.item_id(), binding.item_id) {
                (Some(a), Some(b)) => a@ == b@,
                (None, None) => true,
                _ => false,
            },
            r.mode() == binding.input_mode,
            r.clear_secs() == match binding.clipboard_clear_after_secs {
                Some(s) => s,
                None => global_clear_secs,
            },
            r.state() is Start,
    {
        Trigger {
            item_id: match &binding.item_id {
                Some(id) => Some(id.clone()),
                None => None,
            },
            input_mode: binding.input_mode,
            clear_secs: binding.clear_after_secs(global_clear_secs),
            state: TriggerState::Start,
        }
    }

    /// Whether the trigger is finished.
    pub fn is_done(&self) -> (r: bool)
        ensures
            r == self.state() is Done,
    {
        match self.state {
            TriggerState::Done => true,
            _ => false,
        }
    }

    /// Whether the trigger waits for this event.
    pub fn accepts(&self, event: &TriggerEvent) -> (r: bool)
        ensures
            r == accepts(self.state(), *event),
    {
        match (&self.state, event) {
            (TriggerState::Start, TriggerEvent::Pressed) => true,
            (TriggerState::Locating, TriggerEvent::MousePosition(_)) => true,
            (TriggerState::Settling(_, _), TriggerEvent::Settled) => true,
            (TriggerState::Clicking, TriggerEvent::Clicked(_)) => true,
            (TriggerState::Fetching, TriggerEvent::Password(_)) => true,
            (TriggerState::Delivering(_), TriggerEvent::Delivered(_)) => true,
            _ => false,
        }
    }

    /// Advance the trigger on an event and say what to do next.
    pub fn step(&mut self, event: TriggerEvent) -> (action: TriggerAction)
        requires
            accepts(old(self).state(), event),
        ensures
            trigger_step(
                old(self).item_id(),
                old(self).mode(),
                old(self).clear_secs(),
                old(self).state(),
                event,
                final(self).state(),
                action,
            ),
            final(self).item_id() == old(self).item_id(),
            final(self).mode() == old(self).mode(),
            final(self).clear_secs() == old(self).clear_secs(),
    {
        let mut state = TriggerState::Done;
        std::mem::swap(&mut state, &mut self.state);
        match (state, event) {
            (TriggerState::Start, TriggerEvent::Pressed) => {
                self.state = TriggerState::Locating;
                TriggerAction::GetMousePosition
            },
            (TriggerState::Locating, TriggerEvent::MousePosition(Ok((x, y)))) => {
                self.state = TriggerState::Settling(x, y);
                TriggerAction::WaitForModifierRelease
            },
            (TriggerState::Locating, TriggerEvent::MousePosition(Err(e))) => {
                TriggerAction::Fail(concat_str("Failed to get mouse position: ", e.message().as_str()))
            },
            (TriggerState::Settling(x, y), TriggerEvent::Settled) => {
                self.state = TriggerState::Clicking;
                TriggerAction::ClickAt(x, y)
            },
            (TriggerState::Clicking, TriggerEvent::Clicked(Ok(()))) => {
                self.state = TriggerState::Fetching;
                TriggerAction::FetchPassword(
                    match &self.item_id {
                        Some(id) => Some(id.clone()),
                        None => None,
                    },
                )
            },
            (TriggerState::Clicking, TriggerEvent::Clicked(Err(e))) => {
                TriggerAction::Fail(concat_str("Failed to click: ", e.message().as_str()))
            },
            (TriggerState::Fetching, TriggerEvent::Password(Ok(p))) => {
                let action = if self.input_mode.types_characters() {
                    TriggerAction::TypeText(p.clone())
                } else {
                    TriggerAction::PasteText(p.clone())
                };
                self.state = TriggerState::Delivering(p);
                action
            },
            (TriggerState::Fetching, TriggerEvent::Password(Err(e))) => {
                TriggerAction::Fail(concat_str("Failed to get password: ", e.message().as_str()))
            },
            (TriggerState::Delivering(p), TriggerEvent::Delivered(Ok(()))) => {
                if self.clear_secs > 0 {
                    TriggerAction::ScheduleClipboardClear(self.clear_secs, p)
                } else {
                    TriggerAction::Finish
                }
            },
            (TriggerState::Delivering(_), TriggerEvent::Delivered(Err(e))) => {
                TriggerAction::Fail(concat_str("Failed to input text: ", e.message().as_str()))
            },
            (s, _) => {
                self.state = s;
                TriggerAction::Finish
            },
        }
    }
}

/// How far a trigger has come: the number of steps taken.
pub open spec fn stage(s: TriggerState) -> nat {
    match s {
        TriggerState::Start => 0,
        TriggerState::Locating => 1,
        TriggerState::Settling(_, _) => 2,
        TriggerState::Clicking => 3,
        TriggerState::Fetching => 4,
        TriggerState::Delivering(_) => 5,
        TriggerState::Done => 6,
    }
}

/// Every step moves a trigger forward, so a trigger is done after at most
/// six events; and the clipboard is only ever scheduled to be cleared of
/// the text that was just input, after the configured delay.
pub proof fn lemma_trigger_progresses(
    item_id: Option<String>,
    mode: InputMode,
    clear_secs: u64,
    state: TriggerState,
    event: TriggerEvent,
    next: TriggerState,
    action: TriggerAction,
)
    requires
        trigger_step(item_id, mode, clear_secs, state, event, next, action),
    ensures
        stage(state) < stage(next) <= 6,
        action matches TriggerAction::ScheduleClipboardClear(secs, text) ==> (clear_secs > 0
            && secs == clear_secs && state == TriggerState::Delivering(text) && next is Done),
{
}

/// `auto` is equivalent to `type`: a trigger in either mode takes the same
/// steps and does the same things.
pub proof fn lemma_auto_is_type(
    item_id: Option<String>,
    clear_secs: u64,
    state: TriggerState,
    event: TriggerEvent,
    next: TriggerState,
    action: TriggerAction,
)
    ensures
        trigger_step(item_id, InputMode::Auto, clear_secs, state, event, next, action)
            == trigger_step(item_id, InputMode::Type, clear_secs, state, event, next, action),
{
}

/// Whether the clipboard should be cleared: only while it still holds the
/// text that was input (new content copied meanwhile is kept).
pub fn should_clear_clipboard(current: &str, typed: &str) -> (r: bool)
    ensures
        r == (current@ == typed@),
{
    str_eq(current, typed)
}

} // verus!
