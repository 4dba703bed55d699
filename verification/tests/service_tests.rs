use keyflow::service::{
    control_reply, create_failure_message, create_service_args, delete_failure_message,
    delete_service_args, describe_service_args, installed_lines, next_phase, removed_line,
    status_report, stop_service_args, ControlReply, ServiceControl, ServicePhase,
};

#[test]
fn service_control_requests() {
    assert_eq!(control_reply(ServiceControl::Stop), (ControlReply::NoError, true));
    assert_eq!(control_reply(ServiceControl::Shutdown), (ControlReply::NoError, true));
    assert_eq!(control_reply(ServiceControl::Interrogate), (ControlReply::NoError, false));
    assert_eq!(control_reply(ServiceControl::Other), (ControlReply::NotImplemented, false));
}

#[test]
fn service_phases() {
    let s = status_report(ServicePhase::StartPending);
    assert!(!s.accepts_stop);
    assert_eq!(s.wait_hint_secs, 5);
    let r = status_report(ServicePhase::Running);
    assert!(r.accepts_stop);
    assert_eq!(r.wait_hint_secs, 0);
    assert!(!status_report(ServicePhase::Stopped).accepts_stop);
    assert_eq!(next_phase(ServicePhase::StartPending), Some(ServicePhase::Running));
    assert_eq!(next_phase(ServicePhase::Running), Some(ServicePhase::Stopped));
    assert_eq!(next_phase(ServicePhase::Stopped), None);
}

#[test]
fn sc_exe_arguments() {
    assert_eq!(
        create_service_args("C:\\kf\\keyflow.exe"),
        vec![
            "create",
            "KeyFlow",
            "binPath=",
            "\"C:\\kf\\keyflow.exe\" service run",
            "start=",
            "auto",
            "DisplayName=",
            "KeyFlow - Non-paste password input assistant",
        ]
    );
    assert_eq!(
        describe_service_args(),
        vec!["description", "KeyFlow", "Simulates keystrokes to bypass paste-disabled password fields"]
    );
    assert_eq!(stop_service_args(), vec!["stop", "KeyFlow"]);
    assert_eq!(delete_service_args(), vec!["delete", "KeyFlow"]);
    assert_eq!(create_failure_message("denied"), "Failed to create service: denied");
    assert_eq!(delete_failure_message("gone"), "Failed to delete service: gone");
    assert_eq!(installed_lines()[0], "Service 'KeyFlow' installed successfully.");
    assert_eq!(installed_lines().len(), 3);
    assert_eq!(removed_line(), "Service 'KeyFlow' removed successfully.");
}
