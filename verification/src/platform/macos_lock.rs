//! The macOS screen-lock monitor: it polls the session's lock flag and reports
//! each change.
use vstd::prelude::*;

use crate::platform::{LockEvent, LockSource};

verus! {

/// Milliseconds between two polls of the session's lock flag.
pub const LOCK_POLL_INTERVAL_MS: u64 = 800;

/// The event for a poll that reads `locked` after `last`: none when the state is
/// unchanged, else `Locked` or `Unlocked` from the macOS session.
pub open spec fn observed(last: bool, locked: bool) -> Option<LockEvent> {
    if locked == last {
        None
    } else if locked {
        Some(LockEvent::Locked(LockSource::MacosSession))
    } else {
        Some(LockEvent::Unlocked(LockSource::MacosSession))
    }
}

/// The lock state after the polls `states`, starting from `init`.
pub open spec fn state_after(init: bool, states: Seq<bool>) -> bool {
    if states.len() == 0 {
        init
    } else {
        states.last()
    }
}

/// The events a monitor started at `init` reports for the polls `states`, in order.
pub open spec fn lock_events(init: bool, states: Seq<bool>) -> Seq<LockEvent>
    decreases states.len(),
{
    if states.len() == 0 {
        Seq::empty()
    } else {
        let before = lock_events(init, states.drop_last());
        match observed(state_after(init, states.drop_last()), states.last()) {
            Some(e) => before.push(e),
            None => before,
        }
    }
}

/// How many polls of `states` read a state other than the one before.
pub open spec fn lock_changes(init: bool, states: Seq<bool>) -> nat
    decreases states.len(),
{
    if states.len() == 0 {
        0
    } else {
        lock_changes(init, states.drop_last()) + if states.last() != state_after(
            init,
            states.drop_last(),
        ) {
            1nat
        } else {
            0nat
        }
    }
}

/// Over any run of polls, the monitor reports one event per change of the lock
/// state and none otherwise; the events alternate, the first being `Locked` when
/// the screen started unlocked; and after an odd number of events the state
/// differs from the initial one.
pub proof fn lemma_lock_events_alternate(init: bool, states: Seq<bool>)
    ensures
        lock_events(init, states).len() == lock_changes(init, states),
        forall|i: int|
            0 <= i < lock_events(init, states).len() ==> (#[trigger] lock_events(
                init,
                states,
            )[i] is Locked <==> ((i % 2 == 0) != init)),
        (lock_events(init, states).len() % 2 == 1) == (state_after(init, states) != init),
    decreases states.len(),
{
    if states.len() > 0 {
        let prev = states.drop_last();
        lemma_lock_events_alternate(init, prev);
    }
}

/// The last lock state the monitor saw.
pub struct LockMonitor {
    pub last_locked: bool,
}

impl LockMonitor {
    /// A monitor that starts from the lock state read at start-up.
    pub fn new(initially_locked: bool) -> (r: Self)
        ensures
            r.last_locked == initially_locked,
    {
        LockMonitor { last_locked: initially_locked }
    }

    /// Takes the lock state of one poll: an event when it changed, none otherwise.
    pub fn observe(&mut self, locked: bool) -> (r: Option<LockEvent>)
        ensures
            final(self).last_locked == locked,
            r == observed(old(self).last_locked, locked),
            locked == old(self).last_locked ==> r is None,
            locked && !old(self).last_locked ==> r == Some(LockEvent::Locked(LockSource::MacosSession)),
            !locked && old(self).last_locked ==> r == Some(
                LockEvent::Unlocked(LockSource::MacosSession),
            ),
    {
        if locked == self.last_locked {
            return None;
        }
        self.last_locked = locked;
        if locked {
            Some(LockEvent::Locked(LockSource::MacosSession))
        } else {
            Some(LockEvent::Unlocked(LockSource::MacosSession))
        }
    }
}

} // verus!
