use dynamic_island::window::read_flag;
use dynamic_island::window::{
    any_blacklisted_fullscreen, blacklist_refresh_needed, centered_x, click_through_style,
    context_menu_action, foreground_check_needed, hover_step, in_trigger_zone, is_listed,
    process_name_from_path, tray_menu_action, visibility_step, HoverInput, MenuAction,
    ScreenRect, TrayAction, WindowCommand, WindowSnapshot, WS_EX_LAYERED, WS_EX_TRANSPARENT,
};

#[test]
fn click_through_style_changes() {
    assert_eq!(click_through_style(0x100, true), Some(0x100 | 0x20 | 0x80000));
    assert_eq!(click_through_style(0x100 | 0x20, true), None);
    assert_eq!(click_through_style(0x100 | 0x20 | 0x80000, false), Some(0x100 | 0x80000));
    assert_eq!(click_through_style(0x100, false), None);
    assert_eq!(WS_EX_TRANSPARENT, 0x20);
    assert_eq!(WS_EX_LAYERED, 0x80000);
}

#[test]
fn click_through_settles_after_one_change() {
    for ex in [0i32, 0x20, 0x80000, -1, i32::MIN, 0x1234567] {
        for through in [true, false] {
            if let Some(s) = click_through_style(ex, through) {
                assert_eq!(click_through_style(s, through), None);
            }
        }
    }
}

#[test]
fn trigger_zone() {
    assert!(in_trigger_zone(960, 5, 960, 75, 15));
    assert!(!in_trigger_zone(885, 5, 960, 75, 15));
    assert!(in_trigger_zone(886, 14, 960, 75, 15));
    assert!(!in_trigger_zone(960, 15, 960, 75, 15));
}

fn input() -> HoverInput {
    HoverInput {
        debug_mode: false,
        interacting: false,
        expanded: false,
        on_capsule: false,
        in_zone: false,
        cursor_y: 500,
        window_bottom: Some(100),
    }
}

#[test]
fn hover_enter_and_leave_capsule() {
    let mut i = input();
    i.on_capsule = true;
    let (on, a) = hover_step(false, &i);
    assert!(on);
    assert_eq!(a.click_through, Some(false));
    i.on_capsule = false;
    let (on, a) = hover_step(true, &i);
    assert!(!on);
    assert_eq!(a.click_through, Some(true));
    let (on, a) = hover_step(false, &i);
    assert!(!on);
    assert_eq!(a.click_through, None);
}

#[test]
fn hover_while_interacting_keeps_click_state() {
    let mut i = input();
    i.interacting = true;
    i.on_capsule = true;
    let (on, a) = hover_step(false, &i);
    assert!(on);
    assert_eq!(a.click_through, None);
}

#[test]
fn hover_in_debug_mode_always_takes_clicks() {
    let mut i = input();
    i.debug_mode = true;
    let (on, a) = hover_step(true, &i);
    assert!(!on);
    assert_eq!(a.click_through, Some(false));
}

#[test]
fn hover_expand_and_collapse() {
    let mut i = input();
    i.in_zone = true;
    assert_eq!(hover_step(false, &i).1.expand, Some(true));
    i.expanded = true;
    i.cursor_y = 101;
    assert_eq!(hover_step(false, &i).1.expand, Some(false));
    i.cursor_y = 100;
    assert_eq!(hover_step(false, &i).1.expand, None);
    i.window_bottom = None;
    i.cursor_y = 1000;
    assert_eq!(hover_step(false, &i).1.expand, None);
}

#[test]
fn process_names() {
    assert_eq!(process_name_from_path(r"C:\Games\Game.EXE"), "game.exe");
    assert_eq!(process_name_from_path("notepad.exe"), "notepad.exe");
    assert_eq!(process_name_from_path(r"C:\dir\"), "");
    assert_eq!(process_name_from_path(""), "");
}

fn rect(l: i32, t: i32, r: i32, b: i32) -> ScreenRect {
    ScreenRect { left: l, top: t, right: r, bottom: b }
}

fn window(path: &str, r: ScreenRect) -> WindowSnapshot {
    WindowSnapshot {
        visible: true,
        minimized: false,
        rect: Some(r),
        monitor: Some(rect(0, 0, 1920, 1080)),
        image_path: Some(path.to_string()),
    }
}

#[test]
fn fullscreen_blacklisted_windows() {
    let list = vec!["game.exe".to_string()];
    let full = rect(-8, -8, 1928, 1088);
    assert!(any_blacklisted_fullscreen(&vec![window(r"C:\G\Game.exe", full)], &list));
    assert!(!any_blacklisted_fullscreen(&vec![window(r"C:\G\Other.exe", full)], &list));
    assert!(!any_blacklisted_fullscreen(
        &vec![window(r"C:\G\Game.exe", rect(0, 0, 1919, 1080))],
        &list
    ));
    let mut hidden = window(r"C:\G\Game.exe", full);
    hidden.minimized = true;
    assert!(!any_blacklisted_fullscreen(&vec![hidden], &list));
    let mut no_path = window(r"C:\G\Game.exe", full);
    no_path.image_path = None;
    assert!(!any_blacklisted_fullscreen(&vec![no_path], &list));
    assert!(any_blacklisted_fullscreen(
        &vec![window(r"C:\x.exe", full), window(r"C:\G\GAME.EXE", full)],
        &list
    ));
    assert!(!any_blacklisted_fullscreen(&vec![], &list));
}

#[test]
fn blacklist_visibility() {
    let list = vec!["game.exe".to_string()];
    let fg = Some("game.exe".to_string());
    let other = Some("code.exe".to_string());
    assert_eq!(visibility_step(false, true, &list, &fg), (true, Some(WindowCommand::Hide)));
    assert_eq!(visibility_step(true, true, &list, &fg), (true, None));
    assert_eq!(visibility_step(true, true, &list, &other), (false, Some(WindowCommand::Show)));
    assert_eq!(visibility_step(false, true, &list, &other), (false, None));
    assert_eq!(visibility_step(true, true, &list, &None), (false, Some(WindowCommand::Show)));
    assert_eq!(visibility_step(true, false, &list, &fg), (false, Some(WindowCommand::Show)));
    assert_eq!(visibility_step(false, false, &list, &fg), (false, None));
    assert_eq!(visibility_step(true, true, &vec![], &fg), (false, Some(WindowCommand::Show)));
    assert!(blacklist_refresh_needed(true, true));
    assert!(blacklist_refresh_needed(false, false));
    assert!(!blacklist_refresh_needed(false, true));
    assert!(foreground_check_needed(true, &list));
    assert!(!foreground_check_needed(true, &vec![]));
    assert!(!foreground_check_needed(false, &list));
}

#[test]
fn listed_is_exact() {
    let list = vec!["game.exe".to_string()];
    assert!(is_listed(&list, "game.exe"));
    assert!(!is_listed(&list, "Game.exe"));
}

#[test]
fn menus() {
    assert_eq!(context_menu_action(1), Some(MenuAction::Minimize));
    assert_eq!(context_menu_action(2), Some(MenuAction::OpenSettings));
    assert_eq!(context_menu_action(0), None);
    assert_eq!(tray_menu_action("quit"), Some(TrayAction::Quit));
    assert_eq!(tray_menu_action("settings"), Some(TrayAction::OpenSettings));
    assert_eq!(tray_menu_action("other"), None);
}

#[test]
fn window_position() {
    assert_eq!(centered_x(1920, 500), 710);
    assert_eq!(centered_x(400, 500), 0);
}

#[test]
fn event_flags() {
    assert!(read_flag("true"));
    assert!(read_flag(" \ttrue\r\n"));
    assert!(!read_flag("false"));
    assert!(!read_flag("\"true\""));
    assert!(!read_flag("truex"));
    assert!(!read_flag("1"));
    assert!(!read_flag(""));
    assert!(!read_flag("True"));
}
