use lazytime::gui::app::{frame_steps, window_title, FrameSteps};
use lazytime::config::ThemePreference;
use lazytime::gui::app::{
    crop_transparent_edges, current_undo_domain, format_duration_hm, handle_global_shortcuts,
    status_bar_text, title_tracking_text, toolkit_theme, tracked_seconds, undo_message, IconImage,
    ShortcutAction, ShortcutKeys, ToastSlot, ToolkitTheme, UndoDomain, ViewMode,
    TOAST_LIFETIME_MS,
};
use lazytime::gui::{run, GuiError};

fn no_keys() -> ShortcutKeys {
    ShortcutKeys {
        ctrl_z: false,
        c: false,
        t: false,
        v: false,
        p: false,
        j: false,
        o: false,
        x: false,
        q: false,
    }
}

#[test]
fn duration_text() {
    assert_eq!(format_duration_hm(0), "0:00");
    assert_eq!(format_duration_hm(59), "0:00");
    assert_eq!(format_duration_hm(61), "0:01");
    assert_eq!(format_duration_hm(3600 + 9 * 60), "1:09");
    assert_eq!(format_duration_hm(10 * 3600 + 45 * 60 + 59), "10:45");
    assert_eq!(format_duration_hm(-300), "0:-5");
    assert_eq!(format_duration_hm(-3900), "-1:-5");
    assert_eq!(format_duration_hm(-7200), "-2:00");
    assert_eq!(format_duration_hm(i64::MAX), format!("{}:{:02}", i64::MAX / 3600, (i64::MAX % 3600) / 60));
    assert_eq!(format_duration_hm(i64::MIN), format!("{}:{:02}", i64::MIN / 3600, (i64::MIN % 3600) / 60));
}

#[test]
fn day_total() {
    let spans = vec![
        (Some(100), Some(400)),
        (Some(500), None),
        (None, Some(900)),
        (Some(800), Some(700)),
    ];
    assert_eq!(tracked_seconds(&spans, 1000), 300 + 500);
    assert_eq!(tracked_seconds(&Vec::new(), 1000), 0);
}

#[test]
fn title_texts() {
    assert_eq!(title_tracking_text(None, 3600), "(none) 0:00 | 1:00");
    assert_eq!(
        title_tracking_text(Some(("Alpha", 90 * 60)), 2 * 3600),
        "Alpha 1:30 | 2:00"
    );
}

#[test]
fn crop_removes_transparent_margins() {
    // 4x3 icon, opaque pixels at (1,1) and (2,1).
    let mut rgba = vec![0u8; 4 * 3 * 4];
    for &(x, y, v) in &[(1usize, 1usize, 10u8), (2, 1, 20)] {
        let o = (y * 4 + x) * 4;
        rgba[o] = v;
        rgba[o + 1] = v + 1;
        rgba[o + 2] = v + 2;
        rgba[o + 3] = 255;
    }
    let icon = IconImage { rgba, width: 4, height: 3 };
    let out = crop_transparent_edges(&icon);
    assert_eq!((out.width, out.height), (2, 1));
    assert_eq!(out.rgba, vec![10, 11, 12, 255, 20, 21, 22, 255]);
}

#[test]
fn crop_keeps_fully_transparent_icon() {
    let icon = IconImage { rgba: vec![0u8; 2 * 2 * 4], width: 2, height: 2 };
    let out = crop_transparent_edges(&icon);
    assert_eq!((out.width, out.height), (2, 2));
    assert_eq!(out.rgba, vec![0u8; 16]);
}

#[test]
fn crop_of_empty_icon_takes_first_pixel() {
    let icon = IconImage { rgba: vec![1, 2, 3, 4, 5], width: 0, height: 0 };
    let out = crop_transparent_edges(&icon);
    assert_eq!((out.width, out.height), (1, 1));
    assert_eq!(out.rgba, vec![1, 2, 3, 4]);
}

#[test]
fn crop_box_spans_corners() {
    let mut rgba = vec![0u8; 3 * 3 * 4];
    rgba[(0 * 3 + 2) * 4 + 3] = 1;
    rgba[(2 * 3 + 0) * 4 + 3] = 1;
    let icon = IconImage { rgba: rgba.clone(), width: 3, height: 3 };
    let out = crop_transparent_edges(&icon);
    assert_eq!((out.width, out.height), (3, 3));
    assert_eq!(out.rgba, rgba);
}

#[test]
fn undo_domains() {
    assert_eq!(current_undo_domain(ViewMode::Trackings), Some(UndoDomain::Trackings));
    assert_eq!(current_undo_domain(ViewMode::VisualDay), Some(UndoDomain::VisualDay));
    assert_eq!(current_undo_domain(ViewMode::Projects), Some(UndoDomain::Projects));
    assert_eq!(current_undo_domain(ViewMode::Current), None);
    assert_eq!(current_undo_domain(ViewMode::Settings), None);
}

#[test]
fn shortcuts() {
    let mut k = no_keys();
    k.t = true;
    assert_eq!(
        handle_global_shortcuts(true, ViewMode::Current, k),
        ShortcutAction::Nothing
    );
    assert_eq!(
        handle_global_shortcuts(false, ViewMode::Current, k),
        ShortcutAction::Navigate { mode: ViewMode::Trackings, close: false }
    );
    k.x = true;
    k.q = true;
    assert_eq!(
        handle_global_shortcuts(false, ViewMode::Current, k),
        ShortcutAction::Navigate { mode: ViewMode::Settings, close: true }
    );
    let mut z = no_keys();
    z.ctrl_z = true;
    assert_eq!(
        handle_global_shortcuts(false, ViewMode::Projects, z),
        ShortcutAction::Undo(UndoDomain::Projects)
    );
    assert_eq!(
        handle_global_shortcuts(false, ViewMode::Jira, z),
        ShortcutAction::Navigate { mode: ViewMode::Jira, close: false }
    );
}

#[test]
fn undo_messages() {
    assert_eq!(undo_message(Ok(Some("restored".to_string()))), "restored");
    assert_eq!(undo_message(Ok(None)), "nothing to undo");
    assert_eq!(undo_message(Err("db locked".to_string())), "error: db locked");
}

#[test]
fn themes() {
    assert_eq!(toolkit_theme(&ThemePreference::Auto), ToolkitTheme::System);
    assert_eq!(toolkit_theme(&ThemePreference::Light), ToolkitTheme::Light);
    assert_eq!(toolkit_theme(&ThemePreference::Dark), ToolkitTheme::Dark);
}

#[test]
fn toasts() {
    let mut slot = ToastSlot::new();
    slot.push_toast("   ".to_string(), 0);
    assert!(slot.toast.is_none());
    slot.push_toast("saved".to_string(), 1000);
    assert_eq!(slot.toast.as_ref().map(|t| t.text.as_str()), Some("saved"));
    slot.expire(1000 + TOAST_LIFETIME_MS - 1);
    assert!(slot.toast.is_some());
    slot.push_toast(" ".to_string(), 2000);
    assert_eq!(slot.toast.as_ref().map(|t| t.created_at_ms), Some(1000));
    slot.expire(1000 + TOAST_LIFETIME_MS);
    assert!(slot.toast.is_none());
    slot.push_toast("again".to_string(), 3000);
    slot.dismiss();
    assert!(slot.toast.is_none());
}

#[test]
fn gui_needs_toolkit() {
    let cfg = lazytime::config::default_config_template("/tmp/x.db");
    assert_eq!(run(&cfg, None), Err(GuiError::PopupUiDisabled));
    assert_eq!(
        GuiError::PopupUiDisabled.message(),
        "GUI support requires the popup-ui feature"
    );
}

#[test]
fn status_bar_names_backend_and_daemon() {
    assert_eq!(status_bar_text("sway", "running"), "backend: sway | daemon: running");
    assert_eq!(status_bar_text("", ""), "backend:  | daemon: ");
}

#[test]
fn window_title_from_database() {
    assert_eq!(window_title(false, Some(("A", Some(0))), None, 10), "(none) 0:00 | 0:00");
    let spans = vec![(Some(0), Some(3600)), (None, Some(5)), (Some(100), None)];
    assert_eq!(
        window_title(true, Some(("Alpha", Some(1000))), Some(&spans), 4600),
        "Alpha 1:00 | 2:15"
    );
    assert_eq!(
        window_title(true, Some(("Alpha", Some(5000))), Some(&spans), 4600),
        "Alpha 0:00 | 2:15"
    );
    assert_eq!(window_title(true, Some(("B", None)), None, 4600), "B 0:00 | 0:00");
    assert_eq!(window_title(true, None, Some(&spans), 4600), "(none) 0:00 | 2:15");
}

#[test]
fn onboarding_gate() {
    assert_eq!(
        frame_steps(false),
        FrameSteps { onboarding: true, shortcuts: false, poll_daemon: false, main_view: false }
    );
    assert_eq!(
        frame_steps(true),
        FrameSteps { onboarding: false, shortcuts: true, poll_daemon: true, main_view: true }
    );
}
