use lazytime::gui::macos_status::{
    close_request_hides, command_for_menu_id, status_bar_icon, status_command_effects,
    MacosStatusItem, StatusCommand,
};

#[test]
fn menu_ids() {
    assert_eq!(command_for_menu_id("lazytime-show"), Some(StatusCommand::Show));
    assert_eq!(command_for_menu_id("lazytime-hide"), Some(StatusCommand::Hide));
    assert_eq!(command_for_menu_id("lazytime-quit"), Some(StatusCommand::Quit));
    assert_eq!(command_for_menu_id("other"), None);
}

#[test]
fn title_updates_only_on_change() {
    let mut item = MacosStatusItem::new();
    assert_eq!(item.title, "LT");
    assert_eq!(item.set_title("  "), None);
    assert_eq!(item.set_title(" LT "), None);
    assert_eq!(item.set_title(" Alpha 0:10 | 1:00 "), Some("Alpha 0:10 | 1:00".to_string()));
    assert_eq!(item.title, "Alpha 0:10 | 1:00");
    assert_eq!(item.set_title("Alpha 0:10 | 1:00"), None);
}

#[test]
fn commands_come_out_in_order() {
    let mut item = MacosStatusItem::new();
    assert_eq!(item.take_command(), None);
    item.push_command(StatusCommand::Show);
    item.push_command(StatusCommand::Quit);
    assert_eq!(item.take_command(), Some(StatusCommand::Show));
    assert_eq!(item.take_command(), Some(StatusCommand::Quit));
    assert_eq!(item.take_command(), None);
}

#[test]
fn command_effects() {
    let show = status_command_effects(StatusCommand::Show);
    assert!(show.dock_visible && show.focus && !show.close);
    assert_eq!(show.window_visible, Some(true));
    let hide = status_command_effects(StatusCommand::Hide);
    assert!(!hide.dock_visible && !hide.close);
    assert_eq!(hide.window_visible, Some(false));
    let quit = status_command_effects(StatusCommand::Quit);
    assert!(quit.close && quit.dock_visible);
    assert!(close_request_hides(true, false));
    assert!(!close_request_hides(true, true));
    assert!(!close_request_hides(false, false));
}

#[test]
fn clock_icon_pixels() {
    let icon = status_bar_icon();
    assert_eq!(icon.len(), 18 * 18 * 4);
    let px = |x: usize, y: usize| icon[(y * 18 + x) * 4 + 3];
    assert_eq!(px(9, 1), 255); // ring, top
    assert_eq!(px(9, 7), 255); // hand
    assert_eq!(px(12, 9), 255); // hand
    assert_eq!(px(0, 0), 0);
    assert_eq!(px(9, 3), 0); // between ring and hand
    let lit = (0..18 * 18).filter(|i| icon[i * 4 + 3] == 255).count();
    let mut expected = 0;
    for y in 0..18i32 {
        for x in 0..18i32 {
            let d = (x - 9) * (x - 9) + (y - 9) * (y - 9);
            if (45..=64).contains(&d) || (x == 9 && (5..=9).contains(&y)) || (y == 9 && (9..=13).contains(&x)) {
                expected += 1;
            }
        }
    }
    assert_eq!(lit, expected);
}

#[test]
fn menu_events_in_order() {
    let mut item = MacosStatusItem::new();
    for id in ["lazytime-hide", "other", "lazytime-show", "lazytime-quit"] {
        item.on_menu_event(id);
    }
    assert_eq!(item.take_command(), Some(StatusCommand::Hide));
    assert_eq!(item.take_command(), Some(StatusCommand::Show));
    assert_eq!(item.take_command(), Some(StatusCommand::Quit));
    assert_eq!(item.take_command(), None);
    assert_eq!(item.title, "LT");
}
