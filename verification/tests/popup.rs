use lazytime::platform::{BuildConfig, TargetOs};
use lazytime::popup::{reminder_dialog_runner, resume_dialog_runner, DialogRunner};
use lazytime::popup::{
    applescript_string, macos_resume_dialog_script, reminder_fallback_action,
    resolve_linux_popup_backend, resume_action_for_button, resume_fallback_action,
    AnswerLatch, LinuxPopupBackend, PopupAction, ResumeAction,
};

#[test]
fn applescript_escaping() {
    assert_eq!(applescript_string("plain"), "\"plain\"");
    assert_eq!(applescript_string("a\"b\\c"), "\"a\\\"b\\\\c\"");
    assert_eq!(applescript_string(""), "\"\"");
}

#[test]
fn resume_dialog_script_text() {
    let script = macos_resume_dialog_script("Al\"pha", "10:00");
    assert_eq!(
        script,
        "display dialog \"Project 'Al\\\"pha' was paused at 10:00.\n\nChoose how to continue:\" buttons {\"Ignore\", \"Continue from now\", \"Continue from lock time\"} default button \"Continue from now\" with title \"LazyTime Resume Tracking\"\nbutton returned of result"
    );
}

#[test]
fn dialog_buttons() {
    assert_eq!(
        resume_action_for_button("Continue from lock time\n"),
        ResumeAction::ContinueFromLockTime
    );
    assert_eq!(resume_action_for_button(" Continue from now"), ResumeAction::ContinueFromNow);
    assert_eq!(resume_action_for_button("Ignore"), ResumeAction::Ignore);
    assert_eq!(resume_action_for_button(""), ResumeAction::Ignore);
}

#[test]
fn fallbacks() {
    assert_eq!(reminder_fallback_action(), PopupAction::No);
    assert_eq!(resume_fallback_action(), ResumeAction::Ignore);
}

#[test]
fn answers_are_sent_once() {
    let mut latch = AnswerLatch::new();
    assert!(latch.send_once());
    assert!(!latch.send_once());
    assert!(latch.sent);
}

#[test]
fn linux_backend_choice() {
    assert_eq!(resolve_linux_popup_backend(Some("WAYLAND"), Some(":0")), LinuxPopupBackend::Wayland);
    assert_eq!(resolve_linux_popup_backend(Some("x11"), None), LinuxPopupBackend::X11);
    assert_eq!(resolve_linux_popup_backend(Some("other"), Some(":0")), LinuxPopupBackend::X11);
    assert_eq!(resolve_linux_popup_backend(None, Some("  ")), LinuxPopupBackend::Wayland);
    assert_eq!(resolve_linux_popup_backend(None, None), LinuxPopupBackend::Wayland);
}

#[test]
fn one_answer_per_dialog() {
    let mut latch = AnswerLatch::new();
    assert_eq!(latch.answer(Some(PopupAction::Snooze), PopupAction::No), Some(PopupAction::Snooze));
    assert_eq!(latch.answer(Some(PopupAction::Yes), PopupAction::No), None);
    assert_eq!(latch.answer(None, PopupAction::No), None);
    let mut closed = AnswerLatch::new();
    assert_eq!(closed.answer(None, ResumeAction::Ignore), Some(ResumeAction::Ignore));
    assert_eq!(closed.answer(Some(ResumeAction::ContinueFromNow), ResumeAction::Ignore), None);
}

fn build_with(os: TargetOs, popup_ui: bool) -> BuildConfig {
    BuildConfig {
        target_os: os,
        backend_sway: false,
        backend_linux: false,
        backend_windows: false,
        backend_macos: false,
        ipc_tcp: false,
        ipc_unix: false,
        popup_ui,
    }
}

#[test]
fn dialog_runners() {
    assert_eq!(reminder_dialog_runner(&build_with(TargetOs::Linux, false)), DialogRunner::Fallback);
    assert_eq!(reminder_dialog_runner(&build_with(TargetOs::Macos, true)), DialogRunner::Window);
    assert_eq!(resume_dialog_runner(&build_with(TargetOs::Macos, false)), DialogRunner::Fallback);
    assert_eq!(resume_dialog_runner(&build_with(TargetOs::Macos, true)), DialogRunner::AppleScript);
    assert_eq!(resume_dialog_runner(&build_with(TargetOs::Linux, true)), DialogRunner::Window);
}
