//! Reminder and resume dialogs: their requests and answers, the text of the
//! macOS resume dialog, and the choice of the Linux windowing backend.
use vstd::prelude::*;
use vstd::string::StringExecFns;

use crate::platform::{BuildConfig, TargetOs};
use crate::text::{chars_of, chars_eq, push_char, push_str, trim, trim_chars};

verus! {

/// The answer to the tracking reminder.
#[derive(Debug, Clone, Copy, PartialEq, Eq, Structural)]
pub enum PopupAction {
    Yes,
    No,
    Snooze,
}

/// A tracking reminder to show.
#[derive(Debug, Clone)]
pub struct PopupRequest {
    pub output: Option<String>,
    pub message: String,
}

/// The answer to the resume dialog shown after the screen is unlocked.
#[derive(Debug, Clone, Copy, PartialEq, Eq, Structural)]
pub enum ResumeAction {
    ContinueFromLockTime,
    ContinueFromNow,
    Ignore,
}

/// A resume dialog to show for a tracking paused by a screen lock.
#[derive(Debug, Clone)]
pub struct ResumePopupRequest {
    pub output: Option<String>,
    pub project_name: String,
    pub paused_tracking_id: i64,
    pub paused_at_ts: String,
}

/// The answer given for a reminder when no dialog can be shown (or the dialog
/// was closed without a choice): No.
pub fn reminder_fallback_action() -> (r: PopupAction)
    ensures
        r == PopupAction::No,
{
    PopupAction::No
}

/// The answer given for a resume dialog that cannot be shown (or was closed
/// without a choice): Ignore.
pub fn resume_fallback_action() -> (r: ResumeAction)
    ensures
        r == ResumeAction::Ignore,
{
    ResumeAction::Ignore
}

/// Sends an answer at most once: the first answer (button or closing the
/// window) wins.
pub struct AnswerLatch {
    pub sent: bool,
}

impl AnswerLatch {
    pub fn new() -> (r: Self)
        ensures
            !r.sent,
    {
        AnswerLatch { sent: false }
    }

    /// Whether an answer given now is to be sent; afterwards no other one is.
    pub fn send_once(&mut self) -> (r: bool)
        ensures
            r == !old(self).sent,
            final(self).sent,
    {
        if !self.sent {
            self.sent = true;
            true
        } else {
            false
        }
    }

    /// Takes an event of the dialog, `Some` of a chosen answer or `None` when the
    /// window closes without one: the first event sends its answer, or
    /// `fallback` for a closed window; later events send nothing.
    pub fn answer<A>(&mut self, event: Option<A>, fallback: A) -> (r: Option<A>)
        ensures
            r == (if old(self).sent {
                None
            } else {
                Some(event_answer(event, fallback))
            }),
            final(self).sent,
    {
        if self.sent {
            return None;
        }
        self.sent = true;
        match event {
            Some(a) => Some(a),
            None => Some(fallback),
        }
    }
}

/// The answer an event of a dialog stands for: the chosen one, or `fallback`
/// when the window closed without a choice.
pub open spec fn event_answer<A>(event: Option<A>, fallback: A) -> A {
    match event {
        Some(a) => a,
        None => fallback,
    }
}

/// The answers a dialog sends for its events `events`, from a latch that has
/// sent already (`sent`) or not.
pub open spec fn answers_sent<A>(sent: bool, events: Seq<Option<A>>, fallback: A) -> Seq<A>
    decreases events.len(),
{
    if events.len() == 0 {
        Seq::empty()
    } else {
        let here = if sent {
            Seq::empty()
        } else {
            seq![event_answer(events[0], fallback)]
        };
        here + answers_sent(true, events.drop_first(), fallback)
    }
}

proof fn lemma_nothing_after_sent<A>(events: Seq<Option<A>>, fallback: A)
    ensures
        answers_sent(true, events, fallback) =~= Seq::<A>::empty(),
    decreases events.len(),
{
    if events.len() > 0 {
        lemma_nothing_after_sent(events.drop_first(), fallback);
    }
}

/// Over a dialog's life, which ends when its window closes, exactly one answer
/// is sent: the first choice made, or `fallback` (No for the reminder, Ignore
/// for the resume dialog) when the window closed without one.
pub proof fn lemma_one_answer_per_dialog<A>(events: Seq<Option<A>>, fallback: A)
    requires
        events.len() > 0,
    ensures
        answers_sent(false, events, fallback) =~= seq![event_answer(events[0], fallback)],
{
    lemma_nothing_after_sent(events.drop_first(), fallback);
}

/// How a build shows a dialog.
#[derive(Debug, Clone, Copy, PartialEq, Eq, Structural)]
pub enum DialogRunner {
    /// No dialog support (`popup-ui` off): the fallback answer is given at once.
    Fallback,
    /// The macOS resume dialog, through `osascript`.
    AppleScript,
    /// A window of the GUI toolkit; if it cannot start, the fallback answer.
    Window,
}

/// How the reminder is shown: in a window with `popup-ui`, else not at all.
pub fn reminder_dialog_runner(build: &BuildConfig) -> (r: DialogRunner)
    ensures
        r == (if build.popup_ui {
            DialogRunner::Window
        } else {
            DialogRunner::Fallback
        }),
{
    if build.popup_ui {
        DialogRunner::Window
    } else {
        DialogRunner::Fallback
    }
}

/// How the resume dialog is shown: not at all without `popup-ui`; with it,
/// through `osascript` on macOS and in a window elsewhere.
pub fn resume_dialog_runner(build: &BuildConfig) -> (r: DialogRunner)
    ensures
        r == (if !build.popup_ui {
            DialogRunner::Fallback
        } else if build.target_os == TargetOs::Macos {
            DialogRunner::AppleScript
        } else {
            DialogRunner::Window
        }),
{
    if !build.popup_ui {
        DialogRunner::Fallback
    } else if build.target_os == TargetOs::Macos {
        DialogRunner::AppleScript
    } else {
        DialogRunner::Window
    }
}

// ---------------------------------------------------------------------------
// macOS resume dialog
// ---------------------------------------------------------------------------

/// A character escaped for an AppleScript string literal.
pub open spec fn applescript_escaped(c: char) -> Seq<char> {
    if c == '\\' {
        seq!['\\', '\\']
    } else if c == '"' {
        seq!['\\', '"']
    } else {
        seq![c]
    }
}

/// The characters of `s`, each escaped.
pub open spec fn applescript_body(s: Seq<char>) -> Seq<char>
    decreases s.len(),
{
    if s.len() == 0 {
        seq![]
    } else {
        applescript_body(s.drop_last()) + applescript_escaped(s.last())
    }
}

/// `value` as an AppleScript string literal: in double quotes, with backslashes
/// and double quotes escaped by a backslash.
pub fn applescript_string(value: &str) -> (r: String)
    ensures
        r@ == seq!['"'] + applescript_body(value@) + seq!['"'],
{
    let v = chars_of(value);
    let mut r = String::new();
    push_char(&mut r, '"');
    let mut i: usize = 0;
    while i < v.len()
        invariant
            i <= v.len(),
            v@ == value@,
            r@ == seq!['"'] + applescript_body(v@.take(i as int)),
        decreases v.len() - i,
    {
        assert(v@.take(i + 1).drop_last() =~= v@.take(i as int));
        let c = v[i];
        if c == '\\' {
            push_char(&mut r, '\\');
            push_char(&mut r, '\\');
        } else if c == '"' {
            push_char(&mut r, '\\');
            push_char(&mut r, '"');
        } else {
            push_char(&mut r, c);
        }
        assert(r@ =~= seq!['"'] + applescript_body(v@.take(i + 1)));
        i = i + 1;
    }
    assert(v@.take(v.len() as int) =~= v@);
    push_char(&mut r, '"');
    r
}

/// The question of the resume dialog.
pub open spec fn resume_message(project: Seq<char>, paused_at: Seq<char>) -> Seq<char> {
    "Project '"@ + project + "' was paused at "@ + paused_at + ".\n\nChoose how to continue:"@
}

/// The AppleScript that shows the resume dialog and returns the button pressed.
pub open spec fn resume_dialog_script(project: Seq<char>, paused_at: Seq<char>) -> Seq<char> {
    "display dialog "@ + (seq!['"'] + applescript_body(resume_message(project, paused_at)) + seq![
        '"',
    ])
        + " buttons {\"Ignore\", \"Continue from now\", \"Continue from lock time\"} default button \"Continue from now\" with title \"LazyTime Resume Tracking\"\nbutton returned of result"@
}

/// Builds the AppleScript of the resume dialog for `project`, paused at the
/// (already formatted) time `paused_at`.
pub fn macos_resume_dialog_script(project: &str, paused_at: &str) -> (r: String)
    ensures
        r@ == resume_dialog_script(project@, paused_at@),
{
    let mut message = String::from_str("Project '");
    push_str(&mut message, project);
    push_str(&mut message, "' was paused at ");
    push_str(&mut message, paused_at);
    push_str(&mut message, ".\n\nChoose how to continue:");
    let quoted = applescript_string(message.as_str());
    let mut script = String::from_str("display dialog ");
    push_str(&mut script, quoted.as_str());
    push_str(
        &mut script,
        " buttons {\"Ignore\", \"Continue from now\", \"Continue from lock time\"} default button \"Continue from now\" with title \"LazyTime Resume Tracking\"\nbutton returned of result",
    );
    assert(message@ =~= resume_message(project@, paused_at@));
    script
}

/// The choice behind the button the macOS dialog reports (its output, trimmed).
pub open spec fn resume_action_of_button(button: Seq<char>) -> ResumeAction {
    let b = trim(button);
    if b == "Continue from lock time"@ {
        ResumeAction::ContinueFromLockTime
    } else if b == "Continue from now"@ {
        ResumeAction::ContinueFromNow
    } else {
        ResumeAction::Ignore
    }
}

/// Reads the button the macOS resume dialog reports.
pub fn resume_action_for_button(button: &str) -> (r: ResumeAction)
    ensures
        r == resume_action_of_button(button@),
{
    let b = trim_chars(&chars_of(button));
    if chars_eq(&b, &chars_of("Continue from lock time")) {
        ResumeAction::ContinueFromLockTime
    } else if chars_eq(&b, &chars_of("Continue from now")) {
        ResumeAction::ContinueFromNow
    } else {
        ResumeAction::Ignore
    }
}

// ---------------------------------------------------------------------------
// Linux popup backend
// ---------------------------------------------------------------------------

/// The windowing system used for dialogs on Linux.
#[derive(Debug, Clone, Copy, PartialEq, Eq, Structural)]
pub enum LinuxPopupBackend {
    Wayland,
    X11,
}

/// ASCII lower case of a character (`char::to_ascii_lowercase`).
pub open spec fn ascii_lower(c: char) -> char {
    if 'A' <= c <= 'Z' {
        ((c as u32) + 32) as char
    } else {
        c
    }
}

/// The backend chosen from `LAZYTIME_POPUP_BACKEND` (`force`, compared without
/// regard to ASCII case) and `DISPLAY`: a forced `wayland` or `x11` wins; otherwise
/// X11 where `DISPLAY` is set to something not blank, else Wayland.
pub open spec fn popup_backend(force: Option<Seq<char>>, display: Option<Seq<char>>) -> LinuxPopupBackend {
    let forced = match force {
        Some(f) => Some(ascii_lowered(f)),
        None => None,
    };
    if forced == Some("wayland"@) {
        LinuxPopupBackend::Wayland
    } else if forced == Some("x11"@) {
        LinuxPopupBackend::X11
    } else if display is Some && trim(display->0).len() > 0 {
        LinuxPopupBackend::X11
    } else {
        LinuxPopupBackend::Wayland
    }
}

/// `f` with its ASCII letters in lower case.
pub open spec fn ascii_lowered(f: Seq<char>) -> Seq<char> {
    f.map_values(|c: char| ascii_lower(c))
}

/// Without an override, the X11 backend is used exactly when `DISPLAY` is set to
/// text that is not blank; Wayland otherwise.
pub proof fn lemma_display_decides_without_override(display: Option<Seq<char>>)
    ensures
        (popup_backend(None, display) == LinuxPopupBackend::X11) <==> (display matches Some(d)
            && trim(d).len() > 0),
{
}

/// An override names the backend whatever `DISPLAY` holds when it is `wayland`
/// or `x11` in any ASCII case; any other override is ignored, giving the same
/// backend as no override at all.
pub proof fn lemma_override_wins_or_is_ignored(
    force: Seq<char>,
    display: Option<Seq<char>>,
    other_display: Option<Seq<char>>,
)
    ensures
        ascii_lowered(force) == "wayland"@ ==> popup_backend(
            Some(force),
            display,
        ) == LinuxPopupBackend::Wayland,
        ascii_lowered(force) == "x11"@ ==> popup_backend(
            Some(force),
            display,
        ) == LinuxPopupBackend::X11,
        ascii_lowered(force) != "wayland"@ && ascii_lowered(force) != "x11"@ ==> popup_backend(Some(force), display) == popup_backend(None, display),
        ascii_lowered(force) == "wayland"@ || ascii_lowered(force) == "x11"@ ==> popup_backend(Some(force), display) == popup_backend(
            Some(force),
            other_display,
        ),
{
    reveal_strlit("wayland");
    reveal_strlit("x11");
    assert("wayland"@.len() != "x11"@.len());
}

fn lower_chars(s: &str) -> (r: Vec<char>)
    ensures
        r@ == ascii_lowered(s@),
{
    let v = chars_of(s);
    let mut r: Vec<char> = Vec::new();
    let mut i: usize = 0;
    while i < v.len()
        invariant
            i <= v.len(),
            v@ == s@,
            r@ == v@.take(i as int).map_values(|c: char| ascii_lower(c)),
        decreases v.len() - i,
    {
        let c = v[i];
        let l = if 'A' <= c && c <= 'Z' {
            ((c as u32) + 32) as u8 as char
        } else {
            c
        };
        r.push(l);
        assert(v@.take(i + 1).map_values(|c: char| ascii_lower(c)) =~= v@.take(i as int).map_values(
            |c: char| ascii_lower(c),
        ).push(ascii_lower(v@[i as int])));
        i = i + 1;
    }
    assert(v@.take(v.len() as int) =~= v@);
    r
}

/// Chooses the windowing backend for dialogs on Linux, from the values of
/// `LAZYTIME_POPUP_BACKEND` and `DISPLAY`.
pub fn resolve_linux_popup_backend(force: Option<&str>, display: Option<&str>) -> (r:
    LinuxPopupBackend)
    ensures
        r == popup_backend(crate::text::opt_str_view(force), crate::text::opt_str_view(display)),
{
    if let Some(f) = force {
        let l = lower_chars(f);
        if chars_eq(&l, &chars_of("wayland")) {
            return LinuxPopupBackend::Wayland;
        }
        if chars_eq(&l, &chars_of("x11")) {
            return LinuxPopupBackend::X11;
        }
    }
    let has_x11 = match display {
        Some(d) => trim_chars(&chars_of(d)).len() > 0,
        None => false,
    };
    if has_x11 {
        LinuxPopupBackend::X11
    } else {
        LinuxPopupBackend::Wayland
    }
}

} // verus!
