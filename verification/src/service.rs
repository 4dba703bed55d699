//! What the Windows service does, apart from talking to the Service Control
//! Manager: how it answers control requests, which status it reports in each
//! phase, and the `sc.exe` commands that install and remove it.
use crate::text::concat_str;
use vstd::prelude::*;

verus! {

/// The name the service is registered under.
pub open spec fn service_name() -> Seq<char> {
    "KeyFlow"@
}

/// The name the service is shown under.
pub open spec fn service_display_name() -> Seq<char> {
    "KeyFlow - Non-paste password input assistant"@
}

/// The description of the service.
pub open spec fn service_description() -> Seq<char> {
    "Simulates keystrokes to bypass paste-disabled password fields"@
}

/// A control request from the Service Control Manager.
#[derive(Debug, Clone, Copy, PartialEq, Eq, Structural)]
pub enum ServiceControl {
    Stop,
    Shutdown,
    Interrogate,
    /// Any other request.
    Other,
}

/// The answer to a control request.
#[derive(Debug, Clone, Copy, PartialEq, Eq, Structural)]
pub enum ControlReply {
    NoError,
    NotImplemented,
}

/// How the service answers a control request, and whether the request
/// shuts it down.
pub fn control_reply(control: ServiceControl) -> (r: (ControlReply, bool))
    ensures
        r.1 == (control == ServiceControl::Stop || control == ServiceControl::Shutdown),
        r.0 == if control == ServiceControl::Other {
            ControlReply::NotImplemented
        } else {
            ControlReply::NoError
        },
{
    match control {
        ServiceControl::Stop | ServiceControl::Shutdown => (ControlReply::NoError, true),
        ServiceControl::Interrogate => (ControlReply::NoError, false),
        ServiceControl::Other => (ControlReply::NotImplemented, false),
    }
}

/// The phases the service reports, in order.
#[derive(Debug, Clone, Copy, PartialEq, Eq, Structural)]
pub enum ServicePhase {
    StartPending,
    Running,
    Stopped,
}

/// The status reported in a phase.
#[derive(Debug, Clone, Copy, PartialEq, Eq, Structural)]
pub struct StatusReport {
    pub phase: ServicePhase,
    /// Whether stop and shutdown requests are accepted.
    pub accepts_stop: bool,
    /// The wait hint, in seconds.
    pub wait_hint_secs: u64,
}

/// The status reported in a phase: only a running service accepts stop and
/// shutdown requests; starting announces a five-second wait.
pub fn status_report(phase: ServicePhase) -> (r: StatusReport)
    ensures
        r.phase == phase,
        r.accepts_stop == (phase == ServicePhase::Running),
        r.wait_hint_secs == if phase == ServicePhase::StartPending {
            5u64
        } else {
            0u64
        },
{
    match phase {
        ServicePhase::StartPending => StatusReport { phase, accepts_stop: false, wait_hint_secs: 5 },
        ServicePhase::Running => StatusReport { phase, accepts_stop: true, wait_hint_secs: 0 },
        ServicePhase::Stopped => StatusReport { phase, accepts_stop: false, wait_hint_secs: 0 },
    }
}

/// The phase that follows: starting leads to running once the configuration
/// is loaded, running leads to stopped once a shutdown request came.
pub fn next_phase(phase: ServicePhase) -> (r: Option<ServicePhase>)
    ensures
        phase == ServicePhase::StartPending ==> r == Some(ServicePhase::Running),
        phase == ServicePhase::Running ==> r == Some(ServicePhase::Stopped),
        phase == ServicePhase::Stopped ==> r is None,
{
    match phase {
        ServicePhase::StartPending => Some(ServicePhase::Running),
        ServicePhase::Running => Some(ServicePhase::Stopped),
        ServicePhase::Stopped => None,
    }
}

/// The views of a list of strings.
pub open spec fn texts(v: Seq<String>) -> Seq<Seq<char>> {
    v.map_values(|s: String| s@)
}

/// The command line the service is started with.
pub open spec fn service_bin_path(exe_path: Seq<char>) -> Seq<char> {
    "\""@ + exe_path + "\" service run"@
}

/// The arguments of `sc.exe` that create the service.
pub open spec fn create_args(exe_path: Seq<char>) -> Seq<Seq<char>> {
    seq![
        "create"@,
        service_name(),
        "binPath="@,
        service_bin_path(exe_path),
        "start="@,
        "auto"@,
        "DisplayName="@,
        service_display_name(),
    ]
}

/// The arguments of `sc.exe` that create the service for the executable at
/// `exe_path`.
pub fn create_service_args(exe_path: &str) -> (r: Vec<String>)
    ensures
        texts(r@) == create_args(exe_path@),
{
    let mut bin = concat_str("\"", exe_path);
    bin.append("\" service run");
    let r = vec![
        "create".to_owned(),
        "KeyFlow".to_owned(),
        "binPath=".to_owned(),
        bin,
        "start=".to_owned(),
        "auto".to_owned(),
        "DisplayName=".to_owned(),
        "KeyFlow - Non-paste password input assistant".to_owned(),
    ];
    assert(texts(r@) =~= create_args(exe_path@));
    r
}

/// The arguments of `sc.exe` that describe the service.
pub fn describe_service_args() -> (r: Vec<String>)
    ensures
        texts(r@) == seq!["description"@, service_name(), service_description()],
{
    let r = vec![
        "description".to_owned(),
        "KeyFlow".to_owned(),
        "Simulates keystrokes to bypass paste-disabled password fields".to_owned(),
    ];
    assert(texts(r@) =~= seq!["description"@, service_name(), service_description()]);
    r
}

/// The arguments of `sc.exe` that stop the service.
pub fn stop_service_args() -> (r: Vec<String>)
    ensures
        texts(r@) == seq!["stop"@, service_name()],
{
    let r = vec!["stop".to_owned(), "KeyFlow".to_owned()];
    assert(texts(r@) =~= seq!["stop"@, service_name()]);
    r
}

/// The arguments of `sc.exe` that delete the service.
pub fn delete_service_args() -> (r: Vec<String>)
    ensures
        texts(r@) == seq!["delete"@, service_name()],
{
    let r = vec!["delete".to_owned(), "KeyFlow".to_owned()];
    assert(texts(r@) =~= seq!["delete"@, service_name()]);
    r
}

/// What a failed `sc.exe create` is reported as.
pub fn create_failure_message(stderr: &str) -> (r: String)
    ensures
        r@ == "Failed to create service: "@ + stderr@,
{
    concat_str("Failed to create service: ", stderr)
}

/// What a failed `sc.exe delete` is reported as.
pub fn delete_failure_message(stderr: &str) -> (r: String)
    ensures
        r@ == "Failed to delete service: "@ + stderr@,
{
    concat_str("Failed to delete service: ", stderr)
}

/// What a successful installation prints, line by line.
pub fn installed_lines() -> (r: Vec<String>)
    ensures
        texts(r@) == seq![
            "Service 'KeyFlow' installed successfully."@,
            "  Start with: sc start KeyFlow"@,
            "  Or: net start KeyFlow"@,
        ],
{
    let r = vec![
        "Service 'KeyFlow' installed successfully.".to_owned(),
        "  Start with: sc start KeyFlow".to_owned(),
        "  Or: net start KeyFlow".to_owned(),
    ];
    assert(texts(r@) =~= seq![
        "Service 'KeyFlow' installed successfully."@,
        "  Start with: sc start KeyFlow"@,
        "  Or: net start KeyFlow"@,
    ]);
    r
}

/// What a successful removal prints.
pub fn removed_line() -> (r: String)
    ensures
        r@ == "Service 'KeyFlow' removed successfully."@,
{
    "Service 'KeyFlow' removed successfully.".to_owned()
}

} // verus!
