//! Bitwarden CLI password provider.
//!
//! The `bw` commands are run by the application; which command comes next,
//! and what their output means, is decided here (`BitwardenProvider::step`).
use crate::error::ProviderError;
use crate::text::{chars_of, concat_str, contains, str_contains, string_of, trim, trim_str};
use vstd::prelude::*;

verus! {

/// Calls `std::path::Path::exists`. Nothing is claimed: it depends on the
/// file system.
#[verifier::external_body]
fn path_exists(path: &str) -> (r: bool) {
    std::path::Path::new(path).exists()
}

/// Calls `dirs::home_dir`, the path given as text (lossily). Nothing is
/// claimed: it depends on the environment.
#[verifier::external_body]
fn home_dir() -> (r: Option<String>) {
    dirs::home_dir().map(|p| p.to_string_lossy().to_string())
}

/// Common locations where the `bw` CLI might be installed, in search order.
pub open spec fn bw_search_paths() -> Seq<Seq<char>> {
    seq![
        "/usr/bin/bw"@,
        "/usr/local/bin/bw"@,
        "/opt/homebrew/bin/bw"@,
        "/snap/bin/bw"@,
    ]
}

/// `rel` appended to the directory `base`, as `Path::join` does for a
/// relative path on Unix.
pub open spec fn joined(base: Seq<char>, rel: Seq<char>) -> Seq<char> {
    if base.len() == 0 || base.last() == '/' {
        base + rel
    } else {
        base + seq!['/'] + rel
    }
}

/// `~/.local/bin/bw` under a home directory.
pub open spec fn local_bw(home: Seq<char>) -> Seq<char> {
    joined(home, ".local/bin/bw"@)
}

/// The views of what the search learnt about `~/.local/bin/bw`: the home
/// directory and whether the file exists there.
pub open spec fn local_view(local: Option<(String, bool)>) -> Option<(Seq<char>, bool)> {
    match local {
        Some((home, found)) => Some((home@, found)),
        None => None,
    }
}

/// The path the search settles on, given which of the common locations
/// exist (in search order) and, when none does, the home directory and
/// whether `~/.local/bin/bw` exists: the first existing common location,
/// else `~/.local/bin/bw` when it exists, else `bw` (found on the PATH).
pub open spec fn bw_choice(exists: Seq<bool>, local: Option<(Seq<char>, bool)>) -> Seq<char> {
    if exists[0] {
        bw_search_paths()[0]
    } else if exists[1] {
        bw_search_paths()[1]
    } else if exists[2] {
        bw_search_paths()[2]
    } else if exists[3] {
        bw_search_paths()[3]
    } else {
        match local {
            Some((home, true)) => local_bw(home),
            _ => "bw"@,
        }
    }
}

/// A path the search can settle on, for some answers of the file system.
pub open spec fn bw_candidate(path: Seq<char>) -> bool {
    exists|exists: Seq<bool>, local: Option<(Seq<char>, bool)>|
        exists.len() == 4 && #[trigger] bw_choice(exists, local) == path
}

/// The CLI path a provider ends up with: the configured one when it is given
/// and not empty, else one of the candidates.
pub open spec fn resolved_cli_path(configured: Option<String>, path: Seq<char>) -> bool {
    match configured {
        Some(p) if p@.len() > 0 => path == p@,
        _ => bw_candidate(path),
    }
}

/// Retrieves passwords from Bitwarden via the `bw` CLI.
///
/// Requires:
/// - `bw` CLI installed and in PATH (or custom cli_path)
/// - BW_PASSWORD env var set for auto-unlock
/// - BW_SESSION env var (auto-managed by this provider)
pub struct BitwardenProvider {
    cli_path: String,
}

/// Output of a finished command, as plain values.
pub struct CommandOutput {
    /// The command exited successfully.
    pub success: bool,
    /// Standard output, decoded (lossily) as UTF-8.
    pub stdout: String,
    /// Standard error, decoded (lossily) as UTF-8.
    pub stderr: String,
}

/// Where a password request stands.
#[derive(Debug, Clone, Copy, PartialEq, Eq, Structural)]
pub enum BwPhase {
    /// `bw get password` ran for the first time.
    FirstGet,
    /// `bw unlock` ran.
    Unlock,
    /// `bw get password` ran again after unlocking.
    SecondGet,
}

/// What to do next for a password request.
pub enum BwAction {
    /// Run `bw get password <item_id>`, then call `step` with its output and
    /// the given phase.
    GetPassword(BwPhase),
    /// Run `bw unlock --passwordenv BW_PASSWORD --raw`, then call `step`
    /// with its output and `BwPhase::Unlock`.
    Unlock,
    /// Set `BW_SESSION` to this session, then run `bw get password` again
    /// and call `step` with `BwPhase::SecondGet`.
    SetSessionAndRetry(String),
    /// The request is answered.
    Finish(Result<String, ProviderError>),
}

/// The error text that `bw get password` ends with, when its outcome is a
/// `BitwardenCliError` (`Err` holds the text of a failure to run it).
pub open spec fn get_cli_error(output: Result<CommandOutput, String>) -> Option<Seq<char>> {
    match output {
        Err(e) => Some("Failed to run bw get password: "@ + e@),
        Ok(out) => if !out.success {
            if contains(out.stderr@, "not found"@) || contains(out.stderr@, "Could not find"@) {
                None
            } else {
                Some(out.stderr@)
            }
        } else if trim(out.stdout@).len() == 0 {
            Some("bw returned empty password"@)
        } else {
            None
        },
    }
}

/// `r` is what `bw get password <item_id>` yields for an outcome of the
/// command: the trimmed output, or the error it reports.
pub open spec fn get_outcome_spec(
    item_id: Seq<char>,
    output: Result<CommandOutput, String>,
    r: Result<String, ProviderError>,
) -> bool {
    match get_cli_error(output) {
        Some(text) => r matches Err(ProviderError::BitwardenCliError { stderr }) && stderr@ == text,
        None => match output {
            Ok(out) => if !out.success {
                r matches Err(ProviderError::BitwardenItemNotFound { item_id: id }) && id@ == item_id
            } else {
                r matches Ok(p) && p@ == trim(out.stdout@)
            },
            Err(_) => false,
        },
    }
}

/// The `bw` error output that means the vault must be unlocked first.
pub open spec fn needs_unlock_spec(stderr: Seq<char>) -> bool {
    contains(stderr, "not logged in"@) || contains(stderr, "locked"@) || contains(
        stderr,
        "You are not logged in"@,
    ) || contains(stderr, "empty password"@)
}

/// `r` is what `bw unlock` yields: `Ok(Some(session))` for a session to set,
/// `Ok(None)` when it printed none, or the error it reports.
pub open spec fn unlock_outcome_spec(output: Result<CommandOutput, String>, r: Result<Option<String>, ProviderError>) -> bool {
    match output {
        Err(e) => r matches Err(ProviderError::BitwardenCliError { stderr }) && stderr@ == "Failed to run bw unlock: "@ + e@,
        Ok(out) => if !out.success {
            r matches Err(ProviderError::BitwardenCliError { stderr }) && stderr@ == out.stderr@
        } else if trim(out.stdout@).len() == 0 {
            r matches Ok(None)
        } else {
            r matches Ok(Some(session)) && session@ == trim(out.stdout@)
        },
    }
}

/// `action` is the next action after the command of `phase` finished with
/// `output`.
pub open spec fn step_spec(phase: BwPhase, item_id: Seq<char>, output: Result<CommandOutput, String>, action: BwAction) -> bool {
    match phase {
        BwPhase::FirstGet => if get_cli_error(output) matches Some(text) && needs_unlock_spec(text) {
            action is Unlock
        } else {
            action matches BwAction::Finish(r) && get_outcome_spec(item_id, output, r)
        },
        BwPhase::Unlock => match action {
            BwAction::Finish(Err(e)) => unlock_outcome_spec(output, Err(e)),
            BwAction::SetSessionAndRetry(s) => unlock_outcome_spec(output, Ok(Some(s))),
            BwAction::GetPassword(BwPhase::SecondGet) => unlock_outcome_spec(output, Ok(None)),
            _ => false,
        },
        BwPhase::SecondGet => action matches BwAction::Finish(r) && get_outcome_spec(item_id, output, r),
    }
}

/// The error text for a command that could not be run.
fn spawn_error(prefix: &str, e: &str) -> (r: String)
    ensures
        r@ == prefix@ + e@,
{
    concat_str(prefix, e)
}

/// The path of the `bw` CLI, from what the search found: `exists` says
/// which of the common locations exist, in search order; `local` holds the
/// home directory and whether `~/.local/bin/bw` exists there.
pub fn choose_bw_cli(exists: [bool; 4], local: Option<(String, bool)>) -> (r: String)
    ensures
        r@ == bw_choice(exists@, local_view(local)),
{
    if exists[0] {
        "/usr/bin/bw".to_owned()
    } else if exists[1] {
        "/usr/local/bin/bw".to_owned()
    } else if exists[2] {
        "/opt/homebrew/bin/bw".to_owned()
    } else if exists[3] {
        "/snap/bin/bw".to_owned()
    } else {
        match local {
            Some((home, true)) => BitwardenProvider::local_bin_bw(home.as_str()),
            _ => "bw".to_owned(),
        }
    }
}

impl BitwardenProvider {
    /// The path of the `bw` CLI this provider runs.
    pub closed spec fn cli_path_view(&self) -> Seq<char> {
        self.cli_path@
    }

    /// Use the configured CLI path when it is given and not empty, else
    /// search for the `bw` CLI.
    pub fn new(cli_path: Option<String>) -> (r: Self)
        ensures
            resolved_cli_path(cli_path, r.cli_path_view()),
    {
        let resolved = match cli_path {
            Some(p) => {
                if p.as_str().is_empty() {
                    Self::find_bw_cli()
                } else {
                    p
                }
            },
            None => Self::find_bw_cli(),
        };
        BitwardenProvider { cli_path: resolved }
    }

    /// The path of the `bw` CLI this provider runs.
    pub fn cli_path(&self) -> (r: &str)
        ensures
            r@ == self.cli_path_view(),
    {
        self.cli_path.as_str()
    }

    /// Search for `bw` CLI in common locations, then fall back to `bw`
    /// (rely on PATH). The file system is asked in search order, and only
    /// until an answer is found.
    fn find_bw_cli() -> (r: String)
        ensures
            bw_candidate(r@),
    {
        let e0 = path_exists("/usr/bin/bw");
        let e1 = if e0 {
            false
        } else {
            path_exists("/usr/local/bin/bw")
        };
        let e2 = if e0 || e1 {
            false
        } else {
            path_exists("/opt/homebrew/bin/bw")
        };
        let e3 = if e0 || e1 || e2 {
            false
        } else {
            path_exists("/snap/bin/bw")
        };
        let local = if e0 || e1 || e2 || e3 {
            None
        } else {
            match home_dir() {
                Some(home) => {
                    let path = Self::local_bin_bw(home.as_str());
                    let found = path_exists(path.as_str());
                    Some((home, found))
                },
                None => None,
            }
        };
        let exists = [e0, e1, e2, e3];
        let ghost lv = local_view(local);
        let r = choose_bw_cli(exists, local);
        assert(exists@.len() == 4 && bw_choice(exists@, lv) == r@);
        r
    }

    /// `~/.local/bin/bw` for a home directory.
    fn local_bin_bw(home: &str) -> (r: String)
        ensures
            r@ == local_bw(home@),
    {
        let h = chars_of(home);
        let mut r = home.to_owned();
        if h.len() > 0 && h[h.len() - 1] != '/' {
            r.append("/");
        }
        r.append(".local/bin/bw");
        proof {
            reveal_strlit("/");
        }
        assert(r@ =~= local_bw(home@));
        r
    }

    /// Bitwarden requires an item id: without one it is treated as locked.
    pub fn get_password(&self) -> (r: Result<String, ProviderError>)
        ensures
            r matches Err(ProviderError::BitwardenLocked),
    {
        Err(ProviderError::BitwardenLocked)
    }

    /// The first action of a password request.
    pub fn start(&self) -> (r: BwAction)
        ensures
            r == BwAction::GetPassword(BwPhase::FirstGet),
    {
        BwAction::GetPassword(BwPhase::FirstGet)
    }

    /// Interpret the output of `bw get password <item_id>`.
    pub fn get_outcome(item_id: &str, output: Result<CommandOutput, String>) -> (r: Result<String, ProviderError>)
        ensures
            get_outcome_spec(item_id@, output, r),
    {
        match output {
            Err(e) => Err(ProviderError::BitwardenCliError { stderr: spawn_error("Failed to run bw get password: ", e.as_str()) }),
            Ok(out) => {
                if !out.success {
                    if str_contains(out.stderr.as_str(), "not found") || str_contains(out.stderr.as_str(), "Could not find") {
                        return Err(ProviderError::BitwardenItemNotFound { item_id: item_id.to_owned() });
                    }
                    return Err(ProviderError::BitwardenCliError { stderr: out.stderr });
                }
                let password = trim_str(out.stdout.as_str());
                if password.as_str().is_empty() {
                    return Err(ProviderError::BitwardenCliError { stderr: "bw returned empty password".to_owned() });
                }
                Ok(password)
            },
        }
    }

    /// Whether an error of `bw get password` means the vault must be unlocked
    /// first.
    pub fn needs_unlock(stderr: &str) -> (r: bool)
        ensures
            r == needs_unlock_spec(stderr@),
    {
        str_contains(stderr, "not logged in") || str_contains(stderr, "locked") || str_contains(
            stderr,
            "You are not logged in",
        ) || str_contains(stderr, "empty password")
    }

    /// Interpret the output of `bw unlock --passwordenv BW_PASSWORD --raw`.
    pub fn unlock_outcome(output: Result<CommandOutput, String>) -> (r: Result<Option<String>, ProviderError>)
        ensures
            unlock_outcome_spec(output, r),
    {
        match output {
            Err(e) => Err(ProviderError::BitwardenCliError { stderr: spawn_error("Failed to run bw unlock: ", e.as_str()) }),
            Ok(out) => {
                if !out.success {
                    return Err(ProviderError::BitwardenCliError { stderr: out.stderr });
                }
                let session = trim_str(out.stdout.as_str());
                if session.as_str().is_empty() {
                    Ok(None)
                } else {
                    Ok(Some(session))
                }
            },
        }
    }

    /// The next action of a password request, after the command of `phase`
    /// finished with `output`: a locked vault is unlocked once and the
    /// password asked again; any other answer is final.
    pub fn step(&self, phase: BwPhase, item_id: &str, output: Result<CommandOutput, String>) -> (r: BwAction)
        ensures
            step_spec(phase, item_id@, output, r),
    {
        match phase {
            BwPhase::FirstGet => {
                let outcome = Self::get_outcome(item_id, output);
                match outcome {
                    Err(ProviderError::BitwardenCliError { stderr }) => {
                        if Self::needs_unlock(stderr.as_str()) {
                            BwAction::Unlock
                        } else {
                            BwAction::Finish(Err(ProviderError::BitwardenCliError { stderr }))
                        }
                    },
                    other => BwAction::Finish(other),
                }
            },
            BwPhase::Unlock => match Self::unlock_outcome(output) {
                Err(e) => BwAction::Finish(Err(e)),
                Ok(Some(session)) => BwAction::SetSessionAndRetry(session),
                Ok(None) => BwAction::GetPassword(BwPhase::SecondGet),
            },
            BwPhase::SecondGet => BwAction::Finish(Self::get_outcome(item_id, output)),
        }
    }
}

/// A password request runs at most three commands: the first `bw get`
/// either answers or asks for one unlock; the unlock leads to a final
/// answer or to a second `bw get`; the second `bw get` always answers.
pub proof fn lemma_request_unlocks_at_most_once(
    phase: BwPhase,
    item_id: Seq<char>,
    output: Result<CommandOutput, String>,
    action: BwAction,
)
    requires
        step_spec(phase, item_id, output, action),
    ensures
        phase == BwPhase::FirstGet ==> (action is Unlock || action is Finish),
        phase == BwPhase::Unlock ==> (action is Finish || action is SetSessionAndRetry
            || action == BwAction::GetPassword(BwPhase::SecondGet)),
        phase == BwPhase::SecondGet ==> action is Finish,
{
}

} // verus!
