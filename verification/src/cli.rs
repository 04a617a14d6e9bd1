//! What the commands decide and print: the checks before capture starts,
//! the outcome of `stop`, and the `status` and `snapshot` reports.

use vstd::prelude::*;
use crate::config::{icloud_path, is_icloud_path};
use crate::daemon::Status;
use crate::reader::{Permission, Snapshot};
use crate::text::{
    decimal, decimal_string, labeled, lines_text, opt_text, optional_line, push_line,
    push_optional_line,
};

verus! {

/// Refusal to start a second daemon while the one with `pid` runs (0 when
/// its PID file cannot be read).
pub open spec fn already_running_text(pid: Option<u32>) -> Seq<char> {
    "already running (PID "@ + decimal(
        match pid {
            Some(p) => p as nat,
            None => 0,
        },
    ) + ")"@
}

/// The error `start` gives when a daemon already runs.
pub fn already_running_error(pid: Option<u32>) -> (r: String)
    ensures
        r@ == already_running_text(pid),
{
    let p: u32 = match pid {
        Some(p) => p,
        None => 0,
    };
    let mut r = labeled("already running (PID ", decimal_string(p as u64).as_str());
    r.append(")");
    r
}

/// Why nothing can be read without the accessibility permission.
pub open spec fn permission_refused_text() -> Seq<char> {
    "accessibility permission not granted. Grant permission in System Settings > Privacy & Security > Accessibility."@
}

/// Refuses to go on without the accessibility permission.
pub fn permission_check(permission: Permission) -> (r: Result<(), String>)
    ensures
        permission == Permission::Granted ==> r is Ok,
        permission == Permission::NotGranted ==> (r matches Err(e) && e@ == permission_refused_text()),
{
    match permission {
        Permission::Granted => Ok(()),
        Permission::NotGranted => Err(
            "accessibility permission not granted. Grant permission in System Settings > Privacy & Security > Accessibility.".to_owned(),
        ),
    }
}

/// Why capture cannot start without the helper binary.
pub open spec fn helper_missing_text() -> Seq<char> {
    "ambient-context-ax helper not found. Install it or set ax_helper_path in ~/.config/ambient-context/config.toml"@
}

/// Why `start` refuses to start capture.
#[derive(Clone, Copy, Debug, PartialEq, Eq, Structural)]
pub enum StartRefusal {
    /// A daemon already runs; its PID, when the PID file could be read.
    AlreadyRunning(Option<u32>),
    /// The accessibility permission is not granted.
    PermissionNotGranted,
    /// No snapshot could be taken, the helper is not on the `PATH`, and no
    /// helper path is configured.
    HelperMissing,
}

/// What `start` does next.
#[derive(Clone, Copy, Debug, PartialEq, Eq, Structural)]
pub enum StartAction {
    /// Find out whether a daemon already runs.
    CheckRunning,
    /// Load the configuration and ask the helper for the permission state.
    CheckPermission,
    /// Ask the helper for a snapshot.
    TakeSnapshot,
    /// Ask `which` for the helper on the `PATH`.
    LookUpHelper,
    /// Every check passed: prepare the folder, write the PID file and run.
    Launch,
    /// Give up with an error; nothing is written.
    Refuse(StartRefusal),
}

/// What `start` found out by doing its last action.
#[derive(Clone, Copy, Debug, PartialEq, Eq, Structural)]
pub enum StartFinding {
    /// A daemon runs, with this PID when the PID file could be read.
    Running(Option<u32>),
    /// No daemon runs.
    NotRunning,
    /// The helper reported this permission state.
    Permission(Permission),
    /// Whether the helper gave a snapshot.
    SnapshotTaken(bool),
    /// Whether `which` found the helper.
    HelperOnPath(bool),
}

/// The order of `start`'s checks: no running daemon, then the permission,
/// then a snapshot or (failing that) a helper on the `PATH` or a configured
/// one. A finding that does not answer the current action changes nothing;
/// `Launch` and `Refuse` are final.
pub open spec fn start_next(action: StartAction, finding: StartFinding, helper_configured: bool) -> StartAction {
    match (action, finding) {
        (StartAction::CheckRunning, StartFinding::Running(pid)) => StartAction::Refuse(
            StartRefusal::AlreadyRunning(pid),
        ),
        (StartAction::CheckRunning, StartFinding::NotRunning) => StartAction::CheckPermission,
        (StartAction::CheckPermission, StartFinding::Permission(p)) => if p
            == Permission::Granted {
            StartAction::TakeSnapshot
        } else {
            StartAction::Refuse(StartRefusal::PermissionNotGranted)
        },
        (StartAction::TakeSnapshot, StartFinding::SnapshotTaken(taken)) => if taken {
            StartAction::Launch
        } else {
            StartAction::LookUpHelper
        },
        (StartAction::LookUpHelper, StartFinding::HelperOnPath(found)) => if found
            || helper_configured {
            StartAction::Launch
        } else {
            StartAction::Refuse(StartRefusal::HelperMissing)
        },
        _ => action,
    }
}

/// The action that follows `action` once `finding` is known.
pub fn start_step(action: StartAction, finding: StartFinding, helper_configured: bool) -> (r:
    StartAction)
    ensures
        r == start_next(action, finding, helper_configured),
        action == StartAction::LookUpHelper && finding == StartFinding::HelperOnPath(true) ==> r
            == StartAction::Launch,
        action == StartAction::LookUpHelper && finding is HelperOnPath && helper_configured ==> r
            == StartAction::Launch,
        action == StartAction::LookUpHelper && finding == StartFinding::HelperOnPath(false)
            && !helper_configured ==> r == StartAction::Refuse(StartRefusal::HelperMissing),
{
    proof {
        lemma_start_transitions(finding, helper_configured);
    }
    match (action, finding) {
        (StartAction::CheckRunning, StartFinding::Running(pid)) => StartAction::Refuse(
            StartRefusal::AlreadyRunning(pid),
        ),
        (StartAction::CheckRunning, StartFinding::NotRunning) => StartAction::CheckPermission,
        (StartAction::CheckPermission, StartFinding::Permission(p)) => match p {
            Permission::Granted => StartAction::TakeSnapshot,
            Permission::NotGranted => StartAction::Refuse(StartRefusal::PermissionNotGranted),
        },
        (StartAction::TakeSnapshot, StartFinding::SnapshotTaken(taken)) => if taken {
            StartAction::Launch
        } else {
            StartAction::LookUpHelper
        },
        (StartAction::LookUpHelper, StartFinding::HelperOnPath(found)) => if found
            || helper_configured {
            StartAction::Launch
        } else {
            StartAction::Refuse(StartRefusal::HelperMissing)
        },
        _ => action,
    }
}

/// `start` launches only from a snapshot that was taken, or from a lookup
/// that found the helper or with a configured one; a refusal and a launch
/// are final, so once a check fails nothing is written and no helper runs.
pub proof fn lemma_start_launches_only_after_checks(
    action: StartAction,
    finding: StartFinding,
    helper_configured: bool,
)
    ensures
        action != StartAction::Launch && start_next(action, finding, helper_configured)
            == StartAction::Launch ==> (action == StartAction::TakeSnapshot && finding
            == StartFinding::SnapshotTaken(true)) || (action == StartAction::LookUpHelper
            && (finding matches StartFinding::HelperOnPath(found) && (found || helper_configured))),
        start_next(action, finding, helper_configured) == StartAction::TakeSnapshot ==> action
            == StartAction::TakeSnapshot || (action == StartAction::CheckPermission && finding
            == StartFinding::Permission(Permission::Granted)),
        start_next(action, finding, helper_configured) == StartAction::CheckPermission ==> action
            == StartAction::CheckPermission || (action == StartAction::CheckRunning && finding
            == StartFinding::NotRunning),
        action == StartAction::Launch ==> start_next(action, finding, helper_configured)
            == StartAction::Launch,
        action is Refuse ==> start_next(action, finding, helper_configured) == action,
{
}

/// Each check of `start` and where its answer leads: a running daemon is
/// refused with its PID, otherwise the permission is checked; a granted
/// permission leads to a snapshot, a refused one to a refusal; a snapshot
/// that was taken launches, otherwise the helper is looked up on the `PATH`;
/// after the lookup, `start` launches exactly when the helper was found or a
/// helper path is configured, and otherwise refuses for a missing helper.
pub proof fn lemma_start_transitions(finding: StartFinding, helper_configured: bool)
    ensures
        forall|pid: Option<u32>|
            #[trigger] start_next(StartAction::CheckRunning, StartFinding::Running(pid), helper_configured)
                == StartAction::Refuse(StartRefusal::AlreadyRunning(pid)),
        start_next(StartAction::CheckRunning, StartFinding::NotRunning, helper_configured)
            == StartAction::CheckPermission,
        start_next(
            StartAction::CheckPermission,
            StartFinding::Permission(Permission::Granted),
            helper_configured,
        ) == StartAction::TakeSnapshot,
        start_next(
            StartAction::CheckPermission,
            StartFinding::Permission(Permission::NotGranted),
            helper_configured,
        ) == StartAction::Refuse(StartRefusal::PermissionNotGranted),
        start_next(StartAction::TakeSnapshot, StartFinding::SnapshotTaken(true), helper_configured)
            == StartAction::Launch,
        start_next(StartAction::TakeSnapshot, StartFinding::SnapshotTaken(false), helper_configured)
            == StartAction::LookUpHelper,
        forall|found: bool|
            (found || helper_configured) ==> #[trigger] start_next(
                StartAction::LookUpHelper,
                StartFinding::HelperOnPath(found),
                helper_configured,
            ) == StartAction::Launch,
        !helper_configured ==> start_next(
            StartAction::LookUpHelper,
            StartFinding::HelperOnPath(false),
            helper_configured,
        ) == StartAction::Refuse(StartRefusal::HelperMissing),
{
}

/// The error that `start` gives for a refusal.
pub open spec fn refusal_text(r: StartRefusal) -> Seq<char> {
    match r {
        StartRefusal::AlreadyRunning(pid) => already_running_text(pid),
        StartRefusal::PermissionNotGranted => permission_refused_text(),
        StartRefusal::HelperMissing => helper_missing_text(),
    }
}

/// The error message for a refusal of `start`.
pub fn refusal_message(r: StartRefusal) -> (m: String)
    ensures
        m@ == refusal_text(r),
{
    match r {
        StartRefusal::AlreadyRunning(pid) => already_running_error(pid),
        StartRefusal::PermissionNotGranted =>
            "accessibility permission not granted. Grant permission in System Settings > Privacy & Security > Accessibility.".to_owned(),
        StartRefusal::HelperMissing =>
            "ambient-context-ax helper not found. Install it or set ax_helper_path in ~/.config/ambient-context/config.toml".to_owned(),
    }
}

/// Warning shown when the capture folder would be uploaded to iCloud.
pub open spec fn icloud_warning_text() -> Seq<char> {
    "warning: folder is inside iCloud Drive. Files will be uploaded to Apple's servers."@
}

/// The warning to show for capture folder `folder`, if any.
pub fn folder_warning(folder: &str) -> (r: Option<String>)
    ensures
        icloud_path(folder@) ==> (r matches Some(w) && w@ == icloud_warning_text()),
        !icloud_path(folder@) ==> r is None,
{
    if is_icloud_path(folder) {
        Some(
            "warning: folder is inside iCloud Drive. Files will be uploaded to Apple's servers.".to_owned(),
        )
    } else {
        None
    }
}

/// Confirmation printed once the daemon `pid` has started, logging to
/// `log_path`.
pub open spec fn started_text(pid: u32, log_path: Seq<char>) -> Seq<char> {
    "Started (PID "@ + decimal(pid as nat) + "). Logs: "@ + log_path
}

/// The confirmation that `start` prints.
pub fn started_message(pid: u32, log_path: &str) -> (r: String)
    ensures
        r@ == started_text(pid, log_path@),
{
    let mut r = labeled("Started (PID ", decimal_string(pid as u64).as_str());
    r.append("). Logs: ");
    r.append(log_path);
    r
}

/// What `stop` reports: `outcome` is `None` when no daemon was running, and
/// otherwise whether signalling it stopped a live process, or why stopping
/// failed.
pub open spec fn stop_report_spec(outcome: Option<Result<bool, Seq<char>>>) -> Result<
    Seq<char>,
    Seq<char>,
> {
    match outcome {
        None => Ok("Not running."@),
        Some(Ok(true)) => Ok("Stopped."@),
        Some(Ok(false)) => Ok("Not running (stale PID file cleaned up)."@),
        Some(Err(e)) => Err("failed to stop: "@ + e),
    }
}

/// The text of a stop outcome.
pub open spec fn stop_outcome_text(outcome: Option<Result<bool, String>>) -> Option<
    Result<bool, Seq<char>>,
> {
    match outcome {
        None => None,
        Some(Ok(b)) => Some(Ok(b)),
        Some(Err(e)) => Some(Err(e@)),
    }
}

/// The text of a report that is printed on success or returned as an error.
pub open spec fn result_text(r: Result<String, String>) -> Result<Seq<char>, Seq<char>> {
    match r {
        Ok(s) => Ok(s@),
        Err(e) => Err(e@),
    }
}

/// What `stop` prints, or the error it returns.
pub fn stop_report(outcome: Option<Result<bool, String>>) -> (r: Result<String, String>)
    ensures
        result_text(r) == stop_report_spec(stop_outcome_text(outcome)),
        outcome is None ==> (r matches Ok(m) && m@ == "Not running."@),
        outcome == Some(Ok::<bool, String>(true)) ==> (r matches Ok(m) && m@ == "Stopped."@),
        outcome == Some(Ok::<bool, String>(false)) ==> (r matches Ok(m) && m@
            == "Not running (stale PID file cleaned up)."@),
        outcome matches Some(Err(e)) ==> (r matches Err(m) && m@ == "failed to stop: "@ + e@),
{
    match outcome {
        None => Ok("Not running.".to_owned()),
        Some(Ok(true)) => Ok("Stopped.".to_owned()),
        Some(Ok(false)) => Ok("Not running (stale PID file cleaned up).".to_owned()),
        Some(Err(e)) => Err(labeled("failed to stop: ", e.as_str())),
    }
}

/// The lines of the human-readable `status` report.
pub open spec fn status_report_spec(s: Status) -> Seq<Seq<char>> {
    seq![
        "Status:    "@ + (if s.running {
            "running"@
        } else {
            "stopped"@
        }),
    ] + optional_line(
        "PID:       "@,
        match s.pid {
            Some(p) => Some(decimal(p as nat)),
            None => None,
        },
    ) + seq![
        "Blocks:    "@ + decimal(s.blocks_today as nat) + " today"@,
        "Folder:    "@ + s.folder@,
    ] + optional_line("Started:   "@, opt_text(s.started_at)) + optional_line(
        "Last write: "@,
        opt_text(s.last_write),
    ) + optional_line("Last error: "@, opt_text(s.last_error))
}

/// What the `status` report says: its first line is `Status:    running`
/// exactly when the daemon runs and `Status:    stopped` otherwise, whatever
/// the other fields; a PID line follows only when the PID is known; then
/// come the blocks written today and the folder; and the report has one line
/// more for each of the start time, last write and last error that is known.
pub proof fn lemma_status_report_lines(s: Status)
    ensures
        ({
            let r = status_report_spec(s);
            let k: int = if s.pid is Some {
                2
            } else {
                1
            };
            &&& r.len() == k + 2 + (if s.started_at is Some {
                1int
            } else {
                0
            }) + (if s.last_write is Some {
                1int
            } else {
                0
            }) + (if s.last_error is Some {
                1int
            } else {
                0
            })
            &&& r[0] == (if s.running {
                "Status:    running"@
            } else {
                "Status:    stopped"@
            })
            &&& (s.pid matches Some(p) ==> r[1] == "PID:       "@ + decimal(p as nat))
            &&& r[k] == "Blocks:    "@ + decimal(s.blocks_today as nat) + " today"@
            &&& r[k + 1] == "Folder:    "@ + s.folder@
        }),
{
    reveal_strlit("Status:    ");
    reveal_strlit("running");
    reveal_strlit("stopped");
    reveal_strlit("Status:    running");
    reveal_strlit("Status:    stopped");
    let r = status_report_spec(s);
    if s.running {
        assert("Status:    "@ + "running"@ =~= "Status:    running"@);
    } else {
        assert("Status:    "@ + "stopped"@ =~= "Status:    stopped"@);
    }
}

/// The human-readable `status` report, line by line.
pub fn status_report(s: &Status) -> (r: Vec<String>)
    ensures
        lines_text(r@) == status_report_spec(*s),
        r@.len() >= 3,
        r@[0]@ == (if s.running {
            "Status:    running"@
        } else {
            "Status:    stopped"@
        }),
{
    proof {
        lemma_status_report_lines(*s);
    }
    let mut out: Vec<String> = Vec::new();
    let state = if s.running {
        "running"
    } else {
        "stopped"
    };
    push_line(&mut out, labeled("Status:    ", state));
    let ghost first = lines_text(out@);
    let pid_text: Option<String> = match s.pid {
        Some(p) => Some(decimal_string(p as u64)),
        None => None,
    };
    push_optional_line(&mut out, "PID:       ", &pid_text);
    let mut blocks = labeled("Blocks:    ", decimal_string(s.blocks_today as u64).as_str());
    blocks.append(" today");
    push_line(&mut out, blocks);
    push_line(&mut out, labeled("Folder:    ", s.folder.as_str()));
    push_optional_line(&mut out, "Started:   ", &s.started_at);
    push_optional_line(&mut out, "Last write: ", &s.last_write);
    push_optional_line(&mut out, "Last error: ", &s.last_error);
    assert(lines_text(out@) =~= status_report_spec(*s));
    out
}

/// The lines of the `snapshot` report.
pub open spec fn snapshot_report_spec(s: Snapshot) -> Seq<Seq<char>> {
    seq!["App:       "@ + s.app@] + optional_line("Title:     "@, opt_text(s.window_title))
        + optional_line("Document:  "@, opt_text(s.document)) + optional_line(
        "URL:       "@,
        opt_text(s.url),
    ) + seq!["Elements:  "@ + decimal(s.text@.len()), seq![]] + lines_text(s.text@)
}

/// Where each part of the `snapshot` report stands: the app line first; then
/// the title, document and URL lines, each only when known and in that
/// order; then the number of text elements, a blank line, and every element
/// in order.
pub proof fn lemma_snapshot_report_lines(s: Snapshot)
    ensures
        ({
            let r = snapshot_report_spec(s);
            let t: int = if s.window_title is Some {
                1
            } else {
                0
            };
            let d: int = if s.document is Some {
                1
            } else {
                0
            };
            let u: int = if s.url is Some {
                1
            } else {
                0
            };
            let e = 1 + t + d + u;
            &&& r.len() == e + 2 + s.text@.len()
            &&& r[0] == "App:       "@ + s.app@
            &&& (s.window_title matches Some(x) ==> r[1] == "Title:     "@ + x@)
            &&& (s.document matches Some(x) ==> r[1 + t] == "Document:  "@ + x@)
            &&& (s.url matches Some(x) ==> r[1 + t + d] == "URL:       "@ + x@)
            &&& r[e] == "Elements:  "@ + decimal(s.text@.len())
            &&& r[e + 1] == Seq::<char>::empty()
            &&& forall|i: int| 0 <= i < s.text@.len() ==> r[e + 2 + i] == #[trigger] s.text@[i]@
        }),
{
    let r = snapshot_report_spec(s);
    let t: int = if s.window_title is Some {
        1
    } else {
        0
    };
    let d: int = if s.document is Some {
        1
    } else {
        0
    };
    let u: int = if s.url is Some {
        1
    } else {
        0
    };
    let e = 1 + t + d + u;
    assert forall|i: int| 0 <= i < s.text@.len() implies r[e + 2 + i] == #[trigger] s.text@[i]@ by {
        assert(lines_text(s.text@)[i] == s.text@[i]@);
    }
}

/// The `snapshot` report, line by line: the window's identity, the number of
/// text elements, a blank line, then the elements.
pub fn snapshot_report(s: &Snapshot) -> (r: Vec<String>)
    ensures
        lines_text(r@) == snapshot_report_spec(*s),
        r@.len() >= 3,
        r@[0]@ == "App:       "@ + s.app@,
{
    proof {
        lemma_snapshot_report_lines(*s);
    }
    let mut out: Vec<String> = Vec::new();
    push_line(&mut out, labeled("App:       ", s.app.as_str()));
    push_optional_line(&mut out, "Title:     ", &s.window_title);
    push_optional_line(&mut out, "Document:  ", &s.document);
    push_optional_line(&mut out, "URL:       ", &s.url);
    let n = s.text.len();
    push_line(&mut out, labeled("Elements:  ", decimal_string(n as u64).as_str()));
    push_line(&mut out, String::new());
    let ghost head = lines_text(out@);
    let mut i: usize = 0;
    while i < n
        invariant
            n == s.text@.len(),
            i <= n,
            lines_text(out@) =~= head + lines_text(s.text@.subrange(0, i as int)),
        decreases n - i,
    {
        push_line(&mut out, s.text[i].clone());
        assert(lines_text(s.text@.subrange(0, i + 1)) =~= lines_text(
            s.text@.subrange(0, i as int),
        ).push(s.text@[i as int]@));
        i = i + 1;
    }
    assert(s.text@.subrange(0, n as int) =~= s.text@);
    assert(lines_text(out@) =~= snapshot_report_spec(*s));
    out
}

} // verus!
