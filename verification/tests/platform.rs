use lazytime::platform::{pause_active, ActiveTracking};
use lazytime::platform::macos_lock::LOCK_POLL_INTERVAL_MS;
use lazytime::platform::macos_lock::LockMonitor;
use lazytime::platform::{
    detected_backend_name, forget_paused_after, output_rect, reminder_answer_step,
    reminder_step, request_macos_permissions_if_needed, BuildConfig, EventLoop, LockEvent,
    LockSource, LockStep, PausedTracking, ReminderAnswerStep, ReminderStep, ResumeStep,
    TargetOs,
};
use lazytime::popup::{PopupAction, ResumeAction};

fn build(os: TargetOs) -> BuildConfig {
    BuildConfig {
        target_os: os,
        backend_sway: false,
        backend_linux: false,
        backend_windows: false,
        backend_macos: false,
        ipc_tcp: false,
        ipc_unix: false,
        popup_ui: false,
    }
}

fn paused() -> PausedTracking {
    PausedTracking {
        id: 42,
        project_name: "Alpha".to_string(),
        start_ts: "2026-01-01T09:00:00Z".to_string(),
        paused_at_ts: "2026-01-01T10:00:00Z".to_string(),
        output: Some("HDMI-A-1".to_string()),
    }
}

#[test]
fn backend_names() {
    let mut b = build(TargetOs::Linux);
    assert_eq!(detected_backend_name(&b, true), "none");
    b.backend_linux = true;
    assert_eq!(detected_backend_name(&b, true), "linux-desktop");
    b.backend_sway = true;
    assert_eq!(detected_backend_name(&b, true), "sway");
    assert_eq!(detected_backend_name(&b, false), "linux-desktop");
    let mut w = build(TargetOs::Windows);
    w.backend_windows = true;
    assert_eq!(detected_backend_name(&w, false), "windows");
    w.backend_macos = true;
    assert_eq!(detected_backend_name(&w, false), "windows");
    let mut m = build(TargetOs::Macos);
    m.backend_macos = true;
    assert_eq!(detected_backend_name(&m, false), "macos");
    assert!(request_macos_permissions_if_needed(&m));
    assert!(!request_macos_permissions_if_needed(&w));
    let mut l = build(TargetOs::Linux);
    l.backend_windows = true;
    assert_eq!(detected_backend_name(&l, false), "none");
}

#[test]
fn no_output_geometry() {
    assert_eq!(output_rect("HDMI-A-1"), None);
}

#[test]
fn lock_events_pause_once() {
    let mut ev = EventLoop::new();
    let p = paused();
    assert!(matches!(
        ev.on_lock_event(LockEvent::Locked(LockSource::MacosSession), None),
        LockStep::PauseActiveTracking
    ));
    assert!(matches!(
        ev.on_lock_event(LockEvent::Locked(LockSource::MacosSession), Some(&p)),
        LockStep::IgnoreDuplicateLock
    ));
}

#[test]
fn unlock_shows_one_resume_dialog() {
    let mut ev = EventLoop::new();
    let p = paused();
    assert!(matches!(
        ev.on_lock_event(LockEvent::Unlocked(LockSource::MacosSession), None),
        LockStep::NothingPaused
    ));
    match ev.on_lock_event(LockEvent::Unlocked(LockSource::MacosSession), Some(&p)) {
        LockStep::ShowResumeDialog(req) => {
            assert_eq!(req.paused_tracking_id, 42);
            assert_eq!(req.project_name, "Alpha");
            assert_eq!(req.paused_at_ts, "2026-01-01T10:00:00Z");
            assert_eq!(req.output.as_deref(), Some("HDMI-A-1"));
        }
        other => panic!("unexpected {:?}", other),
    }
    assert!(ev.resume_popup_open);
    assert!(matches!(
        ev.on_lock_event(LockEvent::Unlocked(LockSource::MacosSession), Some(&p)),
        LockStep::ResumeDialogAlreadyOpen
    ));
    match ev.on_resume_action(ResumeAction::ContinueFromNow, Some(&p)) {
        ResumeStep::StartFromNow { project_name, output } => {
            assert_eq!(project_name, "Alpha");
            assert_eq!(output.as_deref(), Some("HDMI-A-1"));
        }
        other => panic!("unexpected {:?}", other),
    }
    assert!(!ev.resume_popup_open);
}

#[test]
fn resume_answers() {
    let mut ev = EventLoop::new();
    let p = paused();
    match ev.on_resume_action(ResumeAction::ContinueFromLockTime, Some(&p)) {
        ResumeStep::ReopenPaused { id, project_name, start_ts } => {
            assert_eq!(id, 42);
            assert_eq!(project_name, "Alpha");
            assert_eq!(start_ts, "2026-01-01T09:00:00Z");
        }
        other => panic!("unexpected {:?}", other),
    }
    assert!(matches!(
        ev.on_resume_action(ResumeAction::Ignore, Some(&p)),
        ResumeStep::Ignore
    ));
    assert!(matches!(
        ev.on_resume_action(ResumeAction::Ignore, None),
        ResumeStep::NothingPaused
    ));
    assert!(forget_paused_after(true));
    assert!(!forget_paused_after(false));
}

#[test]
fn reminder_steps() {
    assert!(matches!(reminder_step(true, true, false, false, false), ReminderStep::NotShown));
    assert!(matches!(reminder_step(false, false, false, false, false), ReminderStep::NotShown));
    assert!(matches!(reminder_step(false, true, true, false, false), ReminderStep::NotShown));
    assert!(matches!(reminder_step(false, true, false, true, false), ReminderStep::NotShown));
    assert!(matches!(reminder_step(false, true, false, false, true), ReminderStep::AlreadyOpen));
    match reminder_step(false, true, false, false, false) {
        ReminderStep::Show(req) => {
            assert_eq!(req.message, "No active tracking. Start default project?");
            assert!(req.output.is_none());
        }
        other => panic!("unexpected {:?}", other),
    }
    assert_eq!(reminder_answer_step(PopupAction::Yes), ReminderAnswerStep::StartDefaultProject);
    assert_eq!(reminder_answer_step(PopupAction::No), ReminderAnswerStep::RecordNo);
    assert_eq!(reminder_answer_step(PopupAction::Snooze), ReminderAnswerStep::Snooze);
}

#[test]
fn lock_monitor_reports_changes_only() {
    let mut m = LockMonitor::new(false);
    assert_eq!(m.observe(false), None);
    assert_eq!(m.observe(true), Some(LockEvent::Locked(LockSource::MacosSession)));
    assert_eq!(m.observe(true), None);
    assert_eq!(m.observe(false), Some(LockEvent::Unlocked(LockSource::MacosSession)));
}

#[test]
fn pausing_keeps_the_tracking() {
    let active = ActiveTracking {
        id: 42,
        project_name: "Alpha".to_string(),
        start_ts: "2026-01-01T09:00:00Z".to_string(),
    };
    let step = pause_active(
        &active,
        "2026-01-01T10:00:00Z".to_string(),
        Some("HDMI-A-1".to_string()),
    );
    assert_eq!(step.end.id, 42);
    assert_eq!(step.end.project_name, "Alpha");
    assert_eq!(step.end.start_ts, "2026-01-01T09:00:00Z");
    assert_eq!(step.end.end_ts.as_deref(), Some("2026-01-01T10:00:00Z"));
    assert_eq!(step.paused.id, 42);
    assert_eq!(step.paused.project_name, "Alpha");
    assert_eq!(step.paused.start_ts, "2026-01-01T09:00:00Z");
    assert_eq!(step.paused.paused_at_ts, "2026-01-01T10:00:00Z");
    assert_eq!(step.paused.output.as_deref(), Some("HDMI-A-1"));
}

#[test]
fn one_resume_dialog_until_answered() {
    let paused = PausedTracking {
        id: 1,
        project_name: "Alpha".to_string(),
        start_ts: "s".to_string(),
        paused_at_ts: "p".to_string(),
        output: None,
    };
    let mut state = EventLoop::new();
    let unlock = LockEvent::Unlocked(LockSource::MacosSession);
    let lock = LockEvent::Locked(LockSource::MacosSession);
    let mut shown = 0;
    for event in [unlock, lock, unlock, unlock, lock, unlock] {
        if let LockStep::ShowResumeDialog(_) = state.on_lock_event(event, Some(&paused)) {
            shown += 1;
        }
    }
    assert_eq!(shown, 1);
    let _ = state.on_resume_action(ResumeAction::Ignore, Some(&paused));
    assert!(matches!(
        state.on_lock_event(unlock, Some(&paused)),
        LockStep::ShowResumeDialog(_)
    ));
}

#[test]
fn lock_monitor_alternates() {
    assert_eq!(LOCK_POLL_INTERVAL_MS, 800);
    let mut monitor = LockMonitor::new(false);
    let mut events = Vec::new();
    for s in [false, true, true, false, false, true, false] {
        if let Some(e) = monitor.observe(s) {
            events.push(e);
        }
    }
    assert_eq!(
        events,
        vec![
            LockEvent::Locked(LockSource::MacosSession),
            LockEvent::Unlocked(LockSource::MacosSession),
            LockEvent::Locked(LockSource::MacosSession),
            LockEvent::Unlocked(LockSource::MacosSession),
        ]
    );
}
