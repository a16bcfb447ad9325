//! Platform backends: which one a build carries, what it reports, and the
//! decisions of the daemon event loop.
pub mod macos_lock;

use vstd::prelude::*;
use vstd::string::StringExecFns;

use crate::popup::{PopupAction, PopupRequest, ResumeAction, ResumePopupRequest};

verus! {

/// The operating system a build targets.
#[derive(Debug, Clone, Copy, PartialEq, Eq, Structural)]
pub enum TargetOs {
    Linux,
    Macos,
    Windows,
    Other,
}

/// The compile-time configuration of a build: its target and the optional
/// features it was built with.
#[derive(Debug, Clone, Copy, PartialEq, Eq, Structural)]
pub struct BuildConfig {
    pub target_os: TargetOs,
    pub backend_sway: bool,
    pub backend_linux: bool,
    pub backend_windows: bool,
    pub backend_macos: bool,
    pub ipc_tcp: bool,
    pub ipc_unix: bool,
    pub popup_ui: bool,
}

/// Whether the target is macOS or Windows.
pub open spec fn desktop_vendor_os(os: TargetOs) -> bool {
    os == TargetOs::Macos || os == TargetOs::Windows
}

pub fn is_desktop_vendor_os(os: TargetOs) -> (r: bool)
    ensures
        r == desktop_vendor_os(os),
{
    match os {
        TargetOs::Macos | TargetOs::Windows => true,
        _ => false,
    }
}


// ---------------------------------------------------------------------------
// Backend of a build
// ---------------------------------------------------------------------------

/// Name of the platform backend of a build: `sway` (when the Sway backend is
/// built and Sway is running, else `linux-desktop`), `linux-desktop`, `windows`,
/// `macos`, or `none` when the build has no backend for its target.
pub open spec fn backend_name(build: BuildConfig, sway_available: bool) -> Seq<char> {
    let linux = build.target_os == TargetOs::Linux;
    if build.backend_sway && linux {
        if sway_available {
            "sway"@
        } else {
            "linux-desktop"@
        }
    } else if build.backend_linux && linux {
        "linux-desktop"@
    } else if build.backend_windows && build.target_os == TargetOs::Windows {
        "windows"@
    } else if build.backend_macos && build.target_os == TargetOs::Macos {
        "macos"@
    } else {
        "none"@
    }
}

/// The name of the platform backend that a build uses.
pub fn detected_backend_name(build: &BuildConfig, sway_available: bool) -> (r: &'static str)
    ensures
        r@ == backend_name(*build, sway_available),
{
    let linux = build.target_os == TargetOs::Linux;
    if build.backend_sway && linux {
        if sway_available {
            "sway"
        } else {
            "linux-desktop"
        }
    } else if build.backend_linux && linux {
        "linux-desktop"
    } else if build.backend_windows && build.target_os == TargetOs::Windows {
        "windows"
    } else if build.backend_macos && build.target_os == TargetOs::Macos {
        "macos"
    } else {
        "none"
    }
}

/// Whether a build asks macOS for its accessibility permissions at start-up:
/// only builds with the macOS backend, on macOS.
pub fn request_macos_permissions_if_needed(build: &BuildConfig) -> (r: bool)
    ensures
        r == (build.backend_macos && build.target_os == TargetOs::Macos),
{
    build.backend_macos && build.target_os == TargetOs::Macos
}

/// Geometry of a display output, in pixels.
#[derive(Debug, Clone, Copy, PartialEq, Eq, Structural)]
pub struct OutputRect {
    pub x: i32,
    pub y: i32,
    pub width: u32,
    pub height: u32,
}

/// Geometry of the output named `output_name`. No backend of this library reports
/// output geometry, so there is none.
pub fn output_rect(output_name: &str) -> (r: Option<OutputRect>)
    ensures
        r is None,
{
    None
}

// ---------------------------------------------------------------------------
// Screen lock events
// ---------------------------------------------------------------------------

/// What reported a screen lock change.
#[derive(Debug, Clone, Copy, PartialEq, Eq, Structural)]
pub enum LockSource {
    MacosSession,
}

/// A change of the screen lock.
#[derive(Debug, Clone, Copy, PartialEq, Eq, Structural)]
pub enum LockEvent {
    Locked(LockSource),
    Unlocked(LockSource),
}

/// A tracking paused because the screen was locked.
#[derive(Debug, Clone)]
pub struct PausedTracking {
    pub id: i64,
    pub project_name: String,
    pub start_ts: String,
    /// When it was paused, as written in the database.
    pub paused_at_ts: String,
    pub output: Option<String>,
}

/// The tracking that is running, as the database holds it.
#[derive(Debug, Clone)]
pub struct ActiveTracking {
    pub id: i64,
    pub project_name: String,
    pub start_ts: String,
}

/// New times written for a tracking: its project and start, and its end (`None`
/// while it runs).
#[derive(Debug, Clone)]
pub struct TrackingTimes {
    pub id: i64,
    pub project_name: String,
    pub start_ts: String,
    pub end_ts: Option<String>,
}

/// Pausing the active tracking when the screen locks: the times written for it
/// and the record kept of it.
#[derive(Debug, Clone)]
pub struct PauseStep {
    pub end: TrackingTimes,
    pub paused: PausedTracking,
}

/// Pauses `active` at `now_ts`: it ends at `now_ts` with project and start
/// unchanged, and is remembered with the pause time and the last output seen.
pub fn pause_active(active: &ActiveTracking, now_ts: String, last_output: Option<String>) -> (r:
    PauseStep)
    ensures
        r.end.id == active.id,
        r.end.project_name == active.project_name,
        r.end.start_ts == active.start_ts,
        r.end.end_ts == Some(now_ts),
        r.paused.id == active.id,
        r.paused.project_name == active.project_name,
        r.paused.start_ts == active.start_ts,
        r.paused.paused_at_ts == now_ts,
        r.paused.output == last_output,
{
    let end = TrackingTimes {
        id: active.id,
        project_name: active.project_name.clone(),
        start_ts: active.start_ts.clone(),
        end_ts: Some(now_ts.clone()),
    };
    let paused = PausedTracking {
        id: active.id,
        project_name: active.project_name.clone(),
        start_ts: active.start_ts.clone(),
        paused_at_ts: now_ts,
        output: last_output,
    };
    PauseStep { end, paused }
}

/// What the event loop does for a lock event.
#[derive(Debug, Clone)]
pub enum LockStep {
    /// Locked again while a tracking is already paused: nothing.
    IgnoreDuplicateLock,
    /// Locked: end the active tracking (if any) now and remember it as paused.
    PauseActiveTracking,
    /// Unlocked while the resume dialog is open: nothing.
    ResumeDialogAlreadyOpen,
    /// Unlocked with nothing paused: nothing.
    NothingPaused,
    /// Unlocked: ask how to resume the paused tracking.
    ShowResumeDialog(ResumePopupRequest),
}

/// What the event loop does with the answer of the resume dialog.
#[derive(Debug, Clone)]
pub enum ResumeStep {
    /// No tracking is paused any more: nothing.
    NothingPaused,
    /// Reopen the paused tracking (drop its end time).
    ReopenPaused { id: i64, project_name: String, start_ts: String },
    /// Start a new tracking of the paused project from now, on the same output.
    StartFromNow { project_name: String, output: Option<String> },
    /// Leave the paused tracking ended.
    Ignore,
}

/// What the event loop does with the answer of the reminder.
#[derive(Debug, Clone, Copy, PartialEq, Eq, Structural)]
pub enum ReminderAnswerStep {
    /// Resume automatic tracking and start the default project.
    StartDefaultProject,
    /// Record a "no" (manual stop stays in force).
    RecordNo,
    /// Snooze the reminder.
    Snooze,
}

/// Whether the reminder is shown in a loop iteration.
#[derive(Debug, Clone)]
pub enum ReminderStep {
    /// The reminder is not due, a tracking is active or paused, or it is snoozed.
    NotShown,
    /// The reminder popup is still open.
    AlreadyOpen,
    /// Show the reminder.
    Show(PopupRequest),
}

/// The text of the tracking reminder.
pub open spec fn reminder_message() -> Seq<char> {
    "No active tracking. Start default project?"@
}

/// Whether a lock event shows the resume dialog, given whether one is open and
/// whether a tracking is paused: only an unlock with a paused tracking and no
/// dialog open.
pub open spec fn lock_event_shows_dialog(open: bool, event: LockEvent, paused: bool) -> bool {
    event is Unlocked && !open && paused
}

/// Whether the resume dialog is open after one input of the event loop: a lock
/// event (with whether a tracking is paused) or, as `None`, an answer of the dialog.
pub open spec fn dialog_open_after(open: bool, input: Option<(LockEvent, bool)>) -> bool {
    match input {
        None => false,
        Some((event, paused)) => open || lock_event_shows_dialog(open, event, paused),
    }
}

/// How many resume dialogs the inputs `inputs` show, starting with the dialog
/// open or not as `open` says.
pub open spec fn dialogs_shown(open: bool, inputs: Seq<Option<(LockEvent, bool)>>) -> nat
    decreases inputs.len(),
{
    if inputs.len() == 0 {
        0
    } else {
        let first = inputs[0];
        let here: nat = match first {
            Some((event, paused)) => if lock_event_shows_dialog(open, event, paused) {
                1nat
            } else {
                0nat
            },
            None => 0nat,
        };
        here + dialogs_shown(dialog_open_after(open, first), inputs.drop_first())
    }
}

/// Between two answers of the resume dialog, at most one resume dialog is shown,
/// and none while one is still open: over any run of lock events without an
/// answer, however the paused tracking comes and goes.
pub proof fn lemma_one_resume_dialog_between_answers(
    open: bool,
    inputs: Seq<Option<(LockEvent, bool)>>,
)
    requires
        forall|i: int| 0 <= i < inputs.len() ==> #[trigger] inputs[i] is Some,
    ensures
        dialogs_shown(open, inputs) <= 1,
        open ==> dialogs_shown(open, inputs) == 0,
    decreases inputs.len(),
{
    if inputs.len() > 0 {
        let rest = inputs.drop_first();
        assert forall|i: int| 0 <= i < rest.len() implies #[trigger] rest[i] is Some by {
            assert(rest[i] == inputs[i + 1]);
        }
        assert(inputs[0] is Some);
        lemma_one_resume_dialog_between_answers(dialog_open_after(open, inputs[0]), rest);
    }
}

/// The state the daemon event loop keeps for itself.
pub struct EventLoop {
    pub resume_popup_open: bool,
}

impl EventLoop {
    pub fn new() -> (r: Self)
        ensures
            !r.resume_popup_open,
    {
        EventLoop { resume_popup_open: false }
    }

    /// Decides what a lock event does, given the tracking paused so far.
    pub fn on_lock_event(&mut self, event: LockEvent, paused: Option<&PausedTracking>) -> (r:
        LockStep)
        ensures
            (r is ShowResumeDialog) == lock_event_shows_dialog(
                old(self).resume_popup_open,
                event,
                paused is Some,
            ),
            final(self).resume_popup_open == dialog_open_after(
                old(self).resume_popup_open,
                Some((event, paused is Some)),
            ),
            match event {
                LockEvent::Locked(_) => final(self).resume_popup_open == old(
                    self,
                ).resume_popup_open && if paused is Some {
                    r is IgnoreDuplicateLock
                } else {
                    r is PauseActiveTracking
                },
                LockEvent::Unlocked(_) => if old(self).resume_popup_open {
                    r is ResumeDialogAlreadyOpen && final(self).resume_popup_open
                } else if paused is None {
                    r is NothingPaused && !final(self).resume_popup_open
                } else {
                    final(self).resume_popup_open && match r {
                        LockStep::ShowResumeDialog(req) => {
                            &&& req.output == paused->0.output
                            &&& req.project_name == paused->0.project_name
                            &&& req.paused_tracking_id == paused->0.id
                            &&& req.paused_at_ts == paused->0.paused_at_ts
                        },
                        _ => false,
                    }
                },
            },
    {
        match event {
            LockEvent::Locked(_) => {
                if paused.is_some() {
                    LockStep::IgnoreDuplicateLock
                } else {
                    LockStep::PauseActiveTracking
                }
            },
            LockEvent::Unlocked(_) => {
                if self.resume_popup_open {
                    return LockStep::ResumeDialogAlreadyOpen;
                }
                match paused {
                    None => LockStep::NothingPaused,
                    Some(p) => {
                        self.resume_popup_open = true;
                        LockStep::ShowResumeDialog(
                            ResumePopupRequest {
                                output: p.output.clone(),
                                project_name: p.project_name.clone(),
                                paused_tracking_id: p.id,
                                paused_at_ts: p.paused_at_ts.clone(),
                            },
                        )
                    },
                }
            },
        }
    }

    /// Decides what the answer of the resume dialog does; the dialog is closed.
    pub fn on_resume_action(&mut self, action: ResumeAction, paused: Option<&PausedTracking>) -> (r:
        ResumeStep)
        ensures
            !final(self).resume_popup_open,
            final(self).resume_popup_open == dialog_open_after(old(self).resume_popup_open, None),
            paused is None ==> r is NothingPaused,
            paused is Some ==> match action {
                ResumeAction::ContinueFromLockTime => match r {
                    ResumeStep::ReopenPaused { id, project_name, start_ts } => id == paused->0.id
                        && project_name == paused->0.project_name && start_ts
                        == paused->0.start_ts,
                    _ => false,
                },
                ResumeAction::ContinueFromNow => match r {
                    ResumeStep::StartFromNow { project_name, output } => project_name
                        == paused->0.project_name && output == paused->0.output,
                    _ => false,
                },
                ResumeAction::Ignore => r is Ignore,
            },
    {
        self.resume_popup_open = false;
        match paused {
            None => ResumeStep::NothingPaused,
            Some(p) => match action {
                ResumeAction::ContinueFromLockTime => ResumeStep::ReopenPaused {
                    id: p.id,
                    project_name: p.project_name.clone(),
                    start_ts: p.start_ts.clone(),
                },
                ResumeAction::ContinueFromNow => ResumeStep::StartFromNow {
                    project_name: p.project_name.clone(),
                    output: p.output.clone(),
                },
                ResumeAction::Ignore => ResumeStep::Ignore,
            },
        }
    }
}

/// Whether the paused tracking is forgotten after a resume answer was applied:
/// only when applying it succeeded.
pub fn forget_paused_after(applied_ok: bool) -> (r: bool)
    ensures
        r == applied_ok,
{
    applied_ok
}

/// What the answer to the reminder does.
pub fn reminder_answer_step(action: PopupAction) -> (r: ReminderAnswerStep)
    ensures
        r == match action {
            PopupAction::Yes => ReminderAnswerStep::StartDefaultProject,
            PopupAction::No => ReminderAnswerStep::RecordNo,
            PopupAction::Snooze => ReminderAnswerStep::Snooze,
        },
{
    match action {
        PopupAction::Yes => ReminderAnswerStep::StartDefaultProject,
        PopupAction::No => ReminderAnswerStep::RecordNo,
        PopupAction::Snooze => ReminderAnswerStep::Snooze,
    }
}

/// Decides whether the reminder is shown: only when nothing is paused, the
/// reminder is due, no tracking is active and no manual-stop snooze holds; and
/// not again while its popup is open. The reminder has no output and asks
/// whether to start the default project.
pub fn reminder_step(
    paused: bool,
    due: bool,
    active_tracking: bool,
    snoozed: bool,
    popup_open: bool,
) -> (r: ReminderStep)
    ensures
        !(!paused && due && !active_tracking && !snoozed) ==> r is NotShown,
        (!paused && due && !active_tracking && !snoozed && popup_open) ==> r is AlreadyOpen,
        (!paused && due && !active_tracking && !snoozed && !popup_open) ==> match r {
            ReminderStep::Show(req) => req.output is None && req.message@ == reminder_message(),
            _ => false,
        },
{
    if paused || !due || active_tracking || snoozed {
        return ReminderStep::NotShown;
    }
    if popup_open {
        return ReminderStep::AlreadyOpen;
    }
    ReminderStep::Show(
        PopupRequest {
            output: None,
            message: String::from_str("No active tracking. Start default project?"),
        },
    )
}

} // verus!
