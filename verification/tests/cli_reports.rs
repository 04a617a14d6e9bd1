use ambient_context::cli::{
    already_running_error, folder_warning, permission_check, refusal_message, snapshot_report,
    start_step, started_message, status_report, stop_report, StartAction, StartFinding,
    StartRefusal,
};
use ambient_context::daemon::Status;
use ambient_context::reader::{Permission, Snapshot};

#[test]
fn running_error_names_pid() {
    assert_eq!(already_running_error(Some(4242)), "already running (PID 4242)");
    assert_eq!(already_running_error(None), "already running (PID 0)");
}

#[test]
fn permission_gate() {
    assert_eq!(permission_check(Permission::Granted), Ok(()));
    assert_eq!(
        permission_check(Permission::NotGranted),
        Err("accessibility permission not granted. Grant permission in System Settings > Privacy & Security > Accessibility.".to_string())
    );
}

fn run(findings: &[StartFinding], configured: bool) -> StartAction {
    let mut action = StartAction::CheckRunning;
    for f in findings {
        action = start_step(action, *f, configured);
    }
    action
}

#[test]
fn start_checks_in_order() {
    assert_eq!(
        run(&[StartFinding::NotRunning, StartFinding::Permission(Permission::Granted), StartFinding::SnapshotTaken(true)], false),
        StartAction::Launch
    );
    assert_eq!(
        run(&[StartFinding::Running(Some(9))], false),
        StartAction::Refuse(StartRefusal::AlreadyRunning(Some(9)))
    );
    assert_eq!(
        run(&[StartFinding::NotRunning, StartFinding::Permission(Permission::NotGranted)], true),
        StartAction::Refuse(StartRefusal::PermissionNotGranted)
    );
    assert_eq!(
        run(&[StartFinding::NotRunning, StartFinding::Permission(Permission::Granted), StartFinding::SnapshotTaken(false)], false),
        StartAction::LookUpHelper
    );
    assert_eq!(
        run(
            &[StartFinding::NotRunning, StartFinding::Permission(Permission::Granted), StartFinding::SnapshotTaken(false), StartFinding::HelperOnPath(false)],
            false
        ),
        StartAction::Refuse(StartRefusal::HelperMissing)
    );
    assert_eq!(
        run(
            &[StartFinding::NotRunning, StartFinding::Permission(Permission::Granted), StartFinding::SnapshotTaken(false), StartFinding::HelperOnPath(false)],
            true
        ),
        StartAction::Launch
    );
    assert_eq!(
        run(
            &[StartFinding::NotRunning, StartFinding::Permission(Permission::Granted), StartFinding::SnapshotTaken(false), StartFinding::HelperOnPath(true)],
            false
        ),
        StartAction::Launch
    );
}

#[test]
fn start_refusal_is_final() {
    let refused = StartAction::Refuse(StartRefusal::HelperMissing);
    assert_eq!(start_step(refused, StartFinding::NotRunning, true), refused);
    assert_eq!(
        start_step(StartAction::Launch, StartFinding::Running(None), false),
        StartAction::Launch
    );
    assert_eq!(
        start_step(StartAction::CheckPermission, StartFinding::SnapshotTaken(true), false),
        StartAction::CheckPermission
    );
}

#[test]
fn refusal_messages() {
    assert_eq!(
        refusal_message(StartRefusal::AlreadyRunning(Some(42))),
        "already running (PID 42)"
    );
    assert_eq!(
        refusal_message(StartRefusal::HelperMissing),
        "ambient-context-ax helper not found. Install it or set ax_helper_path in ~/.config/ambient-context/config.toml"
    );
    assert!(refusal_message(StartRefusal::PermissionNotGranted).starts_with("accessibility permission not granted."));
}

#[test]
fn icloud_warning() {
    assert!(folder_warning("/Users/x/Library/Mobile Documents/com~apple~CloudDocs/A").is_some());
    assert_eq!(folder_warning("/Users/x/Ambient Context"), None);
}

#[test]
fn started_confirmation() {
    assert_eq!(
        started_message(77, "/c/daemon.log"),
        "Started (PID 77). Logs: /c/daemon.log"
    );
}

#[test]
fn stop_outcomes() {
    assert_eq!(stop_report(None), Ok("Not running.".to_string()));
    assert_eq!(stop_report(Some(Ok(true))), Ok("Stopped.".to_string()));
    assert_eq!(
        stop_report(Some(Ok(false))),
        Ok("Not running (stale PID file cleaned up).".to_string())
    );
    assert_eq!(
        stop_report(Some(Err("denied".to_string()))),
        Err("failed to stop: denied".to_string())
    );
}

#[test]
fn status_report_full_and_minimal() {
    let full = Status {
        running: true,
        pid: Some(12345),
        blocks_today: 42,
        started_at: Some("2024-01-01 10:00:00".to_string()),
        last_write: Some("2024-01-01 10:30:00".to_string()),
        folder: "/tmp/test".to_string(),
        last_error: Some("oops".to_string()),
    };
    assert_eq!(
        status_report(&full),
        vec![
            "Status:    running",
            "PID:       12345",
            "Blocks:    42 today",
            "Folder:    /tmp/test",
            "Started:   2024-01-01 10:00:00",
            "Last write: 2024-01-01 10:30:00",
            "Last error: oops",
        ]
    );
    let minimal = Status::unrecorded(false, None, "/f".to_string());
    assert_eq!(
        status_report(&minimal),
        vec!["Status:    stopped", "Blocks:    0 today", "Folder:    /f"]
    );
}

#[test]
fn snapshot_report_lines() {
    let s = Snapshot {
        app: "Chrome".to_string(),
        window_title: Some("API notes".to_string()),
        document: None,
        url: Some("https://example.com".to_string()),
        text: vec!["first".to_string(), "second".to_string()],
    };
    assert_eq!(
        snapshot_report(&s),
        vec![
            "App:       Chrome",
            "Title:     API notes",
            "URL:       https://example.com",
            "Elements:  2",
            "",
            "first",
            "second",
        ]
    );
}
