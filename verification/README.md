# lazytime

The verified core of a desktop time tracker: configuration and working hours,
project colours, the daemon panel's log handling and lock-owner bookkeeping,
the event-loop decisions of the tracking daemon, the reminder and resume
dialogs, and the menu-bar status item.

- `src/` is the library, verified with Verus. `text.rs` holds the character
  model (trimming, search, number parsing and formatting) that the other
  modules are specified with.
- `tests/` runs the library on concrete values.
- `app/` is the runtime around it: reading the JSON configuration file, the
  system clock, the dialog and lock-monitor threads, the daemon panel's child
  process, stopping processes and the asynchronous event loop.
- `extras/hue_check.py` evaluates the single-precision HSL conversion behind
  generated project colours for every hue and compares it with the integer
  formula that `src/gui/color.rs` is specified with.
