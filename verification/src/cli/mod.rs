//! Command-line commands of KeyFlow and what they decide.
pub mod bind;
pub mod encrypt;
pub mod status;
pub mod unlock;

use vstd::prelude::*;

verus! {

/// The command line.
pub struct Cli {
    pub command: Commands,
}

/// Top-level commands.
pub enum Commands {
    /// Start the KeyFlow daemon (listens for hotkeys)
    Run {
        /// Run as background daemon
        daemon: bool,
    },
    /// Stop the running daemon
    Stop,
    /// Show daemon and Bitwarden status
    Status,
    /// Manage hotkey bindings
    Bind(BindCommands),
    /// Show configuration
    Config(ConfigCommands),
    /// Unlock Bitwarden vault
    Unlock,
}

/// `bind` subcommands.
pub enum BindCommands {
    /// Add a new hotkey binding
    Add {
        /// Human-readable name
        name: String,
        /// Hotkey to bind (e.g., F7, F8)
        hotkey: String,
        /// Provider type (clipboard or bitwarden)
        provider: String,
        /// Item ID for the provider (required for bitwarden)
        item_id: Option<String>,
    },
    /// Remove a binding by name
    Remove {
        /// Name of the binding to remove
        name: String,
    },
    /// List all bindings
    List,
}

/// `config` subcommands.
pub enum ConfigCommands {
    /// Show current configuration
    Show,
    /// Show config file path
    Path,
}

/// What `stop` prints.
pub fn stop_message() -> (r: String)
    ensures
        r@ == "To stop the daemon, press Ctrl+C or send SIGTERM."@,
{
    "To stop the daemon, press Ctrl+C or send SIGTERM.".to_owned()
}

} // verus!
