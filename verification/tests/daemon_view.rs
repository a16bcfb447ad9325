use lazytime::gui::views::daemon::{
    auto_start_wanted, cleanup_plan, start_failed_message, start_plan, StartPlan,
};
use lazytime::gui::views::daemon::{
    compute_status, extract_log_message, format_log_entry, is_boilerplate_prefix,
    lock_owned_by_gui, lock_owner_matches_tui, looks_like_noise, outside_stop_plan,
    owner_id_for, panel_controls, parse_lock_owner, restart_message, split_after_level,
    status_text, strip_ansi, DaemonStatus, DaemonView, OutsideStop, MAX_LOG_LINES,
};

#[test]
fn strip_ansi_removes_colour_sequences() {
    assert_eq!(strip_ansi("\u{1b}[32mINFO\u{1b}[0m hello"), "INFO hello");
    assert_eq!(strip_ansi("plain"), "plain");
    assert_eq!(strip_ansi("a\u{1b}b"), "ab");
    assert_eq!(strip_ansi("x\u{1b}[12;3"), "x");
    assert_eq!(strip_ansi("é"), "\u{c3}\u{a9}");
}

#[test]
fn split_after_level_finds_word_levels() {
    assert_eq!(
        split_after_level("2026-01-01T10:00:00Z  INFO lazytime::daemon: started"),
        Some(("2026-01-01T10:00:00Z  ", " lazytime::daemon: started"))
    );
    assert_eq!(split_after_level("no level here"), None);
    assert_eq!(split_after_level("INFORMATION only"), None);
    assert_eq!(split_after_level("xINFO y WARN z"), Some(("xINFO y ", " z")));
    assert_eq!(split_after_level("ERROR"), Some(("", "")));
}

#[test]
fn boilerplate_prefixes() {
    assert!(is_boilerplate_prefix("lazytime::daemon"));
    assert!(is_boilerplate_prefix(" target_name-1.2 "));
    assert!(!is_boilerplate_prefix("   "));
    assert!(!is_boilerplate_prefix("hello world"));
    assert!(!is_boilerplate_prefix(&"a".repeat(81)));
    assert!(is_boilerplate_prefix(&"a".repeat(80)));
}

#[test]
fn noise_detection() {
    assert!(looks_like_noise(""));
    assert!(looks_like_noise("--"));
    assert!(!looks_like_noise("ok"));
    assert!(!looks_like_noise("----"));
    assert!(!looks_like_noise("éé"));
    assert!(looks_like_noise("é"));
}

#[test]
fn extract_log_message_strips_level_and_prefixes() {
    assert_eq!(
        extract_log_message(
            "\u{1b}[2m2026-01-01T10:00:00Z\u{1b}[0m \u{1b}[32m INFO\u{1b}[0m lazytime::daemon: focus changed"
        ),
        "focus changed"
    );
    assert_eq!(
        extract_log_message("2026-01-01 WARN [main] lazytime - popup failed"),
        "popup failed"
    );
    assert_eq!(extract_log_message("  just text  "), "just text");
    assert_eq!(extract_log_message("INFO :"), "INFO :");
}

#[test]
fn log_entry_has_timestamp_and_message() {
    assert_eq!(
        format_log_entry("2026-01-01 10:00:00", "INFO x::y: hello"),
        "2026-01-01 10:00:00 hello"
    );
}

#[test]
fn lock_owner_forms() {
    let o = parse_lock_owner("gui:12:1700000000|pid:4242");
    assert_eq!(o.token.as_deref(), Some("gui:12:1700000000"));
    assert_eq!(o.pid, Some(4242));

    let o = parse_lock_owner("pid: 77 ");
    assert_eq!(o.token, None);
    assert_eq!(o.pid, Some(77));

    let o = parse_lock_owner("someone");
    assert_eq!(o.token.as_deref(), Some("someone"));
    assert_eq!(o.pid, None);

    let o = parse_lock_owner("tok|pid:abc");
    assert_eq!(o.token.as_deref(), Some("tok"));
    assert_eq!(o.pid, None);
}

#[test]
fn lock_owner_matching() {
    assert!(lock_owner_matches_tui("gui:1:2|pid:9", "gui:1:2"));
    assert!(!lock_owner_matches_tui("gui:1:3|pid:9", "gui:1:2"));
    assert!(lock_owner_matches_tui("gui:1:2", "gui:1:2"));
    assert!(lock_owner_matches_tui("pid:5", "pid:5"));
    assert!(!lock_owner_matches_tui("pid:5", "gui:1:2"));
    assert!(lock_owned_by_gui("gui:1:2|pid:9", "gui:1:2"));
    assert!(!lock_owned_by_gui("other|pid:9", "gui:1:2"));
}

#[test]
fn status_from_lock() {
    assert_eq!(compute_status(None, "gui:1:2"), DaemonStatus::Stopped);
    assert_eq!(compute_status(Some("gui:1:2|pid:9"), "gui:1:2"), DaemonStatus::Running);
    assert_eq!(compute_status(Some("pid:9"), "gui:1:2"), DaemonStatus::Outside);
    assert_eq!(status_text(DaemonStatus::Outside), "outside");
    assert_eq!(status_text(DaemonStatus::Running), "running");
    assert_eq!(status_text(DaemonStatus::Stopped), "stopped");
}

#[test]
fn own_lock_value_is_recognised() {
    let id = owner_id_for(321, 1_700_000_000);
    assert_eq!(id, "gui:321:1700000000");
    let value = format!("{}|pid:{}", id, 4242);
    assert_eq!(compute_status(Some(&value), &id), DaemonStatus::Running);
    assert_eq!(parse_lock_owner(&value).pid, Some(4242));
    assert_eq!(owner_id_for(1, -5), "gui:1:-5");
}

#[test]
fn outside_stop_plans() {
    assert_eq!(outside_stop_plan(None), OutsideStop::NotRunning);
    assert_eq!(outside_stop_plan(Some("pid:12")), OutsideStop::Terminate(12));
    assert_eq!(outside_stop_plan(Some("x|pid:13")), OutsideStop::Terminate(13));
    assert_eq!(outside_stop_plan(Some("tok")), OutsideStop::NoPid);
}

#[test]
fn log_keeps_the_last_lines() {
    let mut view = DaemonView::new();
    for i in 0..(MAX_LOG_LINES + 5) {
        view.push_log_entry(format!("line {i}"));
    }
    assert_eq!(view.logs.len(), MAX_LOG_LINES);
    assert_eq!(view.logs.front().map(String::as_str), Some("line 5"));
    assert_eq!(
        view.logs.back().map(String::as_str),
        Some(format!("line {}", MAX_LOG_LINES + 4).as_str())
    );
    view.push_log("INFO a::b: hello", "2026-01-01 10:00:00");
    assert_eq!(view.logs.back().map(String::as_str), Some("2026-01-01 10:00:00 hello"));
    assert_eq!(view.logs.len(), MAX_LOG_LINES);
}

#[test]
fn owner_id_is_set_once() {
    let mut view = DaemonView::new();
    view.ensure_owner_id(7, 1_700_000_000);
    let first = view.owner_id.clone();
    assert_eq!(first, "gui:7:1700000000");
    view.ensure_owner_id(8, 1_700_000_500);
    assert_eq!(view.owner_id, first);
}

#[test]
fn restart_backoff() {
    let mut view = DaemonView::new();
    assert!(!view.restart_due(DaemonStatus::Stopped, 10_000));
    let msg = view.mark_started("2026-01-01 10:00:00");
    assert_eq!(msg, "daemon running");
    assert!(view.keep_running);
    assert_eq!(
        view.logs.back().map(String::as_str),
        Some("2026-01-01 10:00:00 daemon process started (loglevel=INFO)")
    );
    assert!(view.restart_due(DaemonStatus::Stopped, 10_000));
    assert!(!view.restart_due(DaemonStatus::Running, 10_000));
    view.note_restart_attempt(10_000);
    assert!(!view.restart_due(DaemonStatus::Stopped, 14_999));
    assert!(view.restart_due(DaemonStatus::Stopped, 15_000));
    view.begin_stop();
    assert!(!view.restart_due(DaemonStatus::Stopped, 20_000));
    assert_eq!(view.finish_stop("2026-01-01 10:00:09"), "daemon stopped");
    assert_eq!(
        view.logs.back().map(String::as_str),
        Some("2026-01-01 10:00:09 daemon stop requested")
    );
}

#[test]
fn loglevel_and_messages() {
    let mut view = DaemonView::new();
    assert_eq!(view.loglevel(), "INFO");
    view.debug_enabled = true;
    assert_eq!(view.loglevel(), "DEBUG");
    assert_eq!(
        restart_message("daemon stopped", "daemon running", "DEBUG"),
        "daemon restarted (DEBUG)"
    );
    assert_eq!(
        restart_message("daemon stopped", "failed to start daemon: x", "INFO"),
        "daemon stopped; failed to start daemon: x"
    );
    assert_eq!(view.after_auto_start("daemon running".to_string(), "2026-01-01 10:00:00"), "daemon auto-started");
    assert!(view.keep_running);
    assert_eq!(
        view.logs.back().map(String::as_str),
        Some("2026-01-01 10:00:00 daemon auto-started by GUI")
    );
    let mut other = DaemonView::new();
    assert_eq!(
        other.after_auto_start("failed to locate executable: x".to_string(), "t"),
        "failed to locate executable: x"
    );
    assert!(!other.keep_running);
    assert!(other.logs.is_empty());
}

#[test]
fn panel_buttons() {
    assert_eq!(panel_controls(DaemonStatus::Stopped, true), (true, false, false));
    assert_eq!(panel_controls(DaemonStatus::Running, true), (false, true, true));
    assert_eq!(panel_controls(DaemonStatus::Outside, false), (false, true, false));
}

#[test]
fn cleanup_touches_only_own_lock() {
    let own = cleanup_plan(Some("gui:1:5|pid:99"), "gui:1:5", true);
    assert_eq!(own.release.as_deref(), Some("gui:1:5|pid:99"));
    assert_eq!(own.kill, Some(99));
    let no_kill = cleanup_plan(Some("gui:1:5|pid:99"), "gui:1:5", false);
    assert_eq!(no_kill.release.as_deref(), Some("gui:1:5|pid:99"));
    assert_eq!(no_kill.kill, None);
    let bare = cleanup_plan(Some("gui:1:5"), "gui:1:5", true);
    assert_eq!(bare.release.as_deref(), Some("gui:1:5"));
    assert_eq!(bare.kill, None);
    let other = cleanup_plan(Some("tui:2:6|pid:7"), "gui:1:5", true);
    assert_eq!(other.release, None);
    assert_eq!(other.kill, None);
    let free = cleanup_plan(None, "gui:1:5", true);
    assert_eq!(free.release, None);
}

#[test]
fn daemon_start_plan() {
    assert!(matches!(
        start_plan(DaemonStatus::Running, false, "gui:1:5"),
        StartPlan::AlreadyRunning
    ));
    match start_plan(DaemonStatus::Stopped, true, "gui:1:5") {
        StartPlan::Spawn { args, owner_var, owner_id } => {
            assert_eq!(args, vec!["--daemon", "--loglevel", "DEBUG"]);
            assert_eq!(owner_var, "LAZYTIME_DAEMON_OWNER");
            assert_eq!(owner_id, "gui:1:5");
        }
        StartPlan::AlreadyRunning => panic!("expected a spawn"),
    }
    match start_plan(DaemonStatus::Outside, false, "x") {
        StartPlan::Spawn { args, .. } => assert_eq!(args, vec!["--daemon", "--loglevel", "INFO"]),
        StartPlan::AlreadyRunning => panic!("expected a spawn"),
    }
    assert_eq!(
        start_failed_message(true, "gone"),
        "failed to locate executable: gone"
    );
    assert_eq!(start_failed_message(false, "denied"), "failed to start daemon: denied");
}

#[test]
fn auto_start_gate() {
    assert!(auto_start_wanted(true, DaemonStatus::Stopped));
    assert!(!auto_start_wanted(false, DaemonStatus::Stopped));
    assert!(!auto_start_wanted(true, DaemonStatus::Running));
    assert!(!auto_start_wanted(true, DaemonStatus::Outside));
}

#[test]
fn outside_stop_answers() {
    let mut view = DaemonView::new();
    assert_eq!(
        view.finish_outside_stop(&OutsideStop::NotRunning, "", false, "t"),
        "daemon is not running"
    );
    assert_eq!(
        view.finish_outside_stop(&OutsideStop::NoPid, "tui:1", false, "t"),
        "cannot stop outside daemon (owner=tui:1)"
    );
    assert_eq!(
        view.finish_outside_stop(&OutsideStop::Terminate(4242), "x", false, "t"),
        "failed to stop outside daemon pid=4242"
    );
    assert!(view.logs.is_empty());
    assert_eq!(
        view.finish_outside_stop(&OutsideStop::Terminate(4242), "x", true, "2026-01-01 10:00:00"),
        "outside daemon stopped"
    );
    assert_eq!(
        view.logs.back().map(String::as_str),
        Some("2026-01-01 10:00:00 stopped outside daemon pid=4242")
    );
}
