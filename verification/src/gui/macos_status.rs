//! The menu-bar status item: its menu commands, its title and its icon.
use std::collections::VecDeque;

use vstd::prelude::*;
use vstd::string::StringExecFns;

use crate::gui::app::{lemma_px_bound, lemma_px_split, px};
use crate::text::{chars_of, chars_eq, string_of_all, trim, trim_chars};

verus! {

/// A command chosen in the status item's menu.
#[derive(Debug, Clone, Copy, PartialEq, Eq, Structural)]
pub enum StatusCommand {
    Show,
    Hide,
    Quit,
}

/// The command of the menu entry with id `id`: `lazytime-show`, `lazytime-hide`
/// and `lazytime-quit` are Show, Hide and Quit; other ids are no command.
pub open spec fn menu_command(id: Seq<char>) -> Option<StatusCommand> {
    if id == "lazytime-show"@ {
        Some(StatusCommand::Show)
    } else if id == "lazytime-hide"@ {
        Some(StatusCommand::Hide)
    } else if id == "lazytime-quit"@ {
        Some(StatusCommand::Quit)
    } else {
        None
    }
}

/// The pending commands after a menu event with id `id`.
pub open spec fn after_menu_event(q: Seq<StatusCommand>, id: Seq<char>) -> Seq<StatusCommand> {
    match menu_command(id) {
        Some(c) => q.push(c),
        None => q,
    }
}

/// The pending commands after the menu events `ids`, in order.
pub open spec fn after_menu_events(q: Seq<StatusCommand>, ids: Seq<Seq<char>>) -> Seq<
    StatusCommand,
>
    decreases ids.len(),
{
    if ids.len() == 0 {
        q
    } else {
        after_menu_event(after_menu_events(q, ids.drop_last()), ids.last())
    }
}

/// The commands of the menu events `ids` that name one, in order.
pub open spec fn menu_commands(ids: Seq<Seq<char>>) -> Seq<StatusCommand>
    decreases ids.len(),
{
    if ids.len() == 0 {
        Seq::empty()
    } else {
        let before = menu_commands(ids.drop_last());
        match menu_command(ids.last()) {
            Some(c) => before.push(c),
            None => before,
        }
    }
}

/// What taking a command from the pending commands `q` gives, and what is left.
pub open spec fn taken(q: Seq<StatusCommand>) -> (Option<StatusCommand>, Seq<StatusCommand>) {
    if q.len() == 0 {
        (None, q)
    } else {
        (Some(q[0]), q.drop_first())
    }
}

/// The answers of `n` takes in a row from the pending commands `q`.
pub open spec fn takes(q: Seq<StatusCommand>, n: nat) -> Seq<Option<StatusCommand>>
    decreases n,
{
    if n == 0 {
        Seq::empty()
    } else {
        seq![taken(q).0] + takes(taken(q).1, (n - 1) as nat)
    }
}

proof fn lemma_after_menu_events(q: Seq<StatusCommand>, ids: Seq<Seq<char>>)
    ensures
        after_menu_events(q, ids) == q + menu_commands(ids),
    decreases ids.len(),
{
    if ids.len() == 0 {
        assert(q + Seq::<StatusCommand>::empty() =~= q);
    } else {
        lemma_after_menu_events(q, ids.drop_last());
        let m = menu_commands(ids.drop_last());
        match menu_command(ids.last()) {
            Some(c) => assert((q + m).push(c) =~= q + m.push(c)),
            None => {},
        }
    }
}

proof fn lemma_takes(q: Seq<StatusCommand>, n: nat)
    ensures
        takes(q, n).len() == n,
        forall|i: int|
            0 <= i < n ==> #[trigger] takes(q, n)[i] == (if i < q.len() {
                Some(q[i])
            } else {
                None
            }),
    decreases n,
{
    if n > 0 {
        let rest = taken(q).1;
        lemma_takes(rest, (n - 1) as nat);
        assert forall|i: int| 0 <= i < n implies #[trigger] takes(q, n)[i] == (if i < q.len() {
            Some(q[i])
        } else {
            None
        }) by {
            if i > 0 {
                assert(takes(q, n)[i] == takes(rest, (n - 1) as nat)[i - 1]);
                if q.len() > 0 {
                    assert(i - 1 < rest.len() ==> rest[i - 1] == q[i]);
                }
            }
        }
    }
}

/// Menu commands are handled in the order of their menu events: starting with
/// no pending command, after the menu events `ids` the takes that follow answer
/// the commands of those events that name one, oldest first, and then nothing.
pub proof fn lemma_menu_commands_in_order(ids: Seq<Seq<char>>, n: nat)
    ensures
        takes(after_menu_events(Seq::empty(), ids), n).len() == n,
        forall|i: int|
            0 <= i < n ==> #[trigger] takes(after_menu_events(Seq::empty(), ids), n)[i] == (if i
                < menu_commands(ids).len() {
                Some(menu_commands(ids)[i])
            } else {
                None
            }),
{
    lemma_after_menu_events(Seq::empty(), ids);
    assert(Seq::<StatusCommand>::empty() + menu_commands(ids) =~= menu_commands(ids));
    lemma_takes(menu_commands(ids), n);
}

/// The command of a menu entry, by its menu id.
pub fn command_for_menu_id(id: &str) -> (r: Option<StatusCommand>)
    ensures
        r == menu_command(id@),
        id@ == "lazytime-show"@ ==> r == Some(StatusCommand::Show),
        id@ == "lazytime-hide"@ ==> r == Some(StatusCommand::Hide),
        id@ == "lazytime-quit"@ ==> r == Some(StatusCommand::Quit),
        id@ != "lazytime-show"@ && id@ != "lazytime-hide"@ && id@ != "lazytime-quit"@ ==> r is None,
{
    proof {
        reveal_strlit("lazytime-show");
        reveal_strlit("lazytime-hide");
        reveal_strlit("lazytime-quit");
        assert("lazytime-show"@[9] != "lazytime-hide"@[9]);
        assert("lazytime-show"@[9] != "lazytime-quit"@[9]);
        assert("lazytime-hide"@[9] != "lazytime-quit"@[9]);
    }
    if crate::text::str_eq(id, "lazytime-show") {
        Some(StatusCommand::Show)
    } else if crate::text::str_eq(id, "lazytime-hide") {
        Some(StatusCommand::Hide)
    } else if crate::text::str_eq(id, "lazytime-quit") {
        Some(StatusCommand::Quit)
    } else {
        None
    }
}

/// The state of the status item: the title it shows and the menu commands not
/// yet handled, oldest first.
pub struct MacosStatusItem {
    pub commands: VecDeque<StatusCommand>,
    pub title: String,
}

impl MacosStatusItem {
    /// A fresh status item titled `LT`, with no pending command.
    pub fn new() -> (r: Self)
        ensures
            r.title@ == "LT"@,
            r.commands@.len() == 0,
    {
        MacosStatusItem { commands: VecDeque::new(), title: String::from_str("LT") }
    }

    /// Takes a new title. Returns the text to show when the title changes: the
    /// trimmed title, unless it is empty or equal to the current one.
    pub fn set_title(&mut self, title: &str) -> (r: Option<String>)
        ensures
            (trim(title@).len() == 0 || trim(title@) == old(self).title@) ==> r is None
                && final(self).title@ == old(self).title@,
            !(trim(title@).len() == 0 || trim(title@) == old(self).title@) ==> r is Some
                && r->0@ == trim(title@) && final(self).title@ == trim(title@),
            final(self).commands@ == old(self).commands@,
    {
        let next = trim_chars(&chars_of(title));
        if next.len() == 0 || chars_eq(&next, &chars_of(self.title.as_str())) {
            return None;
        }
        let text = string_of_all(&next);
        self.title = text.clone();
        Some(text)
    }

    /// Handles a menu event: the command its id names, if any, joins the pending ones.
    pub fn on_menu_event(&mut self, id: &str)
        ensures
            final(self).commands@ == after_menu_event(old(self).commands@, id@),
            final(self).title == old(self).title,
    {
        if let Some(command) = command_for_menu_id(id) {
            self.push_command(command);
        }
    }

    /// Records a menu command.
    pub fn push_command(&mut self, command: StatusCommand)
        ensures
            final(self).commands@ == old(self).commands@.push(command),
            final(self).title == old(self).title,
    {
        self.commands.push_back(command);
    }

    /// The oldest menu command not yet handled.
    pub fn take_command(&mut self) -> (r: Option<StatusCommand>)
        ensures
            old(self).commands@.len() == 0 ==> r is None && final(self).commands@ == old(
                self,
            ).commands@,
            old(self).commands@.len() > 0 ==> r == Some(old(self).commands@[0])
                && final(self).commands@ == old(self).commands@.drop_first(),
            r == taken(old(self).commands@).0,
            final(self).commands@ == taken(old(self).commands@).1,
            final(self).title == old(self).title,
    {
        self.commands.pop_front()
    }
}

// ---------------------------------------------------------------------------
// Window effects of the menu commands
// ---------------------------------------------------------------------------

/// What the application does for a menu command.
#[derive(Debug, Clone, Copy, PartialEq, Eq, Structural)]
pub struct StatusEffects {
    /// Whether the application shows in the Dock afterwards.
    pub dock_visible: bool,
    /// Whether the main window is shown (`Some(true)`), hidden (`Some(false)`) or left alone.
    pub window_visible: Option<bool>,
    /// Whether the main window takes the focus.
    pub focus: bool,
    /// Whether the application closes (and is allowed to).
    pub close: bool,
}

/// The effects of a menu command: Show brings the window back and focuses it,
/// Hide hides it and leaves the Dock, Quit closes the application.
pub fn status_command_effects(command: StatusCommand) -> (r: StatusEffects)
    ensures
        r == match command {
            StatusCommand::Show => StatusEffects {
                dock_visible: true,
                window_visible: Some(true),
                focus: true,
                close: false,
            },
            StatusCommand::Hide => StatusEffects {
                dock_visible: false,
                window_visible: Some(false),
                focus: false,
                close: false,
            },
            StatusCommand::Quit => StatusEffects {
                dock_visible: true,
                window_visible: None,
                focus: false,
                close: true,
            },
        },
{
    match command {
        StatusCommand::Show => StatusEffects {
            dock_visible: true,
            window_visible: Some(true),
            focus: true,
            close: false,
        },
        StatusCommand::Hide => StatusEffects {
            dock_visible: false,
            window_visible: Some(false),
            focus: false,
            close: false,
        },
        StatusCommand::Quit => StatusEffects {
            dock_visible: true,
            window_visible: None,
            focus: false,
            close: true,
        },
    }
}

/// Whether a request to close the window only hides it (the application keeps
/// running in the menu bar until Quit is chosen).
pub fn close_request_hides(close_requested: bool, allow_close: bool) -> (r: bool)
    ensures
        r == (close_requested && !allow_close),
{
    close_requested && !allow_close
}

// ---------------------------------------------------------------------------
// Icon
// ---------------------------------------------------------------------------

/// Side of the square status-bar icon, in pixels.
pub const STATUS_ICON_SIZE: usize = 18;

/// Pixel `(x, y)` of the icon lies on the clock's ring or on one of its hands.
pub open spec fn clock_pixel(x: int, y: int) -> bool {
    let dx = x - 9;
    let dy = y - 9;
    let d2 = dx * dx + dy * dy;
    ||| 45 <= d2 <= 64
    ||| (x == 9 && 5 <= y <= 9)
    ||| (y == 9 && 9 <= x <= 13)
}

fn is_clock_pixel(x: usize, y: usize) -> (r: bool)
    requires
        x < 18,
        y < 18,
    ensures
        r == clock_pixel(x as int, y as int),
{
    let dx = x as i32 - 9;
    let dy = y as i32 - 9;
    assert(0 <= dx * dx <= 81) by (nonlinear_arith)
        requires
            -9 <= dx <= 8,
    ;
    assert(0 <= dy * dy <= 81) by (nonlinear_arith)
        requires
            -9 <= dy <= 8,
    ;
    let d2 = dx * dx + dy * dy;
    let on_outer_ring = d2 <= 64 && d2 >= 45;
    let on_clock_hand = (x == 9 && 5 <= y && y <= 9) || (y == 9 && 9 <= x && x <= 13);
    on_outer_ring || on_clock_hand
}

/// The 18x18 RGBA image of the status-bar icon: a clock drawn in opaque white on
/// a transparent background.
pub fn status_bar_icon() -> (r: Vec<u8>)
    ensures
        r@.len() == 18 * 18 * 4,
        forall|x: int, y: int, c: int|
            0 <= x < 18 && 0 <= y < 18 && 0 <= c < 4 ==> r@[#[trigger] px(18, x, y, c)] == if clock_pixel(
                x,
                y,
            ) {
                255u8
            } else {
                0u8
            },
{
    let mut rgba: Vec<u8> = Vec::new();
    let mut y: usize = 0;
    while y < 18
        invariant
            y <= 18,
            rgba@.len() == px(18, 0, y as int, 0),
            forall|j: int|
                0 <= j < rgba@.len() ==> #[trigger] rgba@[j] == if clock_pixel(
                    (j % 72) / 4,
                    j / 72,
                ) {
                    255u8
                } else {
                    0u8
                },
        decreases 18 - y,
    {
        let mut x: usize = 0;
        while x < 18
            invariant
                y < 18,
                x <= 18,
                rgba@.len() == px(18, x as int, y as int, 0),
                forall|j: int|
                    0 <= j < rgba@.len() ==> #[trigger] rgba@[j] == if clock_pixel(
                        (j % 72) / 4,
                        j / 72,
                    ) {
                        255u8
                    } else {
                        0u8
                    },
            decreases 18 - x,
        {
            let v: u8 = if is_clock_pixel(x, y) {
                255
            } else {
                0
            };
            let mut c: usize = 0;
            while c < 4
                invariant
                    y < 18,
                    x < 18,
                    c <= 4,
                    v == if clock_pixel(x as int, y as int) {
                        255u8
                    } else {
                        0u8
                    },
                    rgba@.len() == px(18, x as int, y as int, c as int),
                    forall|j: int|
                        0 <= j < rgba@.len() ==> #[trigger] rgba@[j] == if clock_pixel(
                            (j % 72) / 4,
                            j / 72,
                        ) {
                            255u8
                        } else {
                            0u8
                        },
                decreases 4 - c,
            {
                proof {
                    lemma_px_split(18, x as int, y as int, c as int);
                }
                rgba.push(v);
                c = c + 1;
            }
            x = x + 1;
        }
        y = y + 1;
    }
    assert forall|x: int, y: int, c: int|
        0 <= x < 18 && 0 <= y < 18 && 0 <= c < 4 implies rgba@[#[trigger] px(18, x, y, c)] == if clock_pixel(
        x,
        y,
    ) {
        255u8
    } else {
        0u8
    } by {
        lemma_px_split(18, x, y, c);
        lemma_px_bound(18, 18, x, y, c);
    }
    rgba
}

} // verus!
