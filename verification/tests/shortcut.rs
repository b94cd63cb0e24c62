use universal_launcher::shortcut::{
    initial_listener_state, on_key_event, parse_shortcut, shortcut_from_config, toggle_window, tray_click_toggles,
    tray_menu_action, Key, KeyEvent, Shortcut, TrayAction, WindowAction,
};

#[test]
fn shortcut_text() {
    assert_eq!(shortcut_from_config(Some("  alt+l \n")), "alt+l");
    assert_eq!(shortcut_from_config(None), "ctrl+space");
}

#[test]
fn parses_shortcuts() {
    assert!(parse_shortcut("ctrl+space") == Shortcut { use_ctrl: true, key: Key::Space });
    assert!(parse_shortcut("alt+L") == Shortcut { use_ctrl: false, key: Key::KeyL });
    assert!(parse_shortcut("ctrl+p") == Shortcut { use_ctrl: true, key: Key::KeyP });
    assert!(parse_shortcut("ctrl") == Shortcut { use_ctrl: true, key: Key::Space });
    assert!(parse_shortcut("CTRL+x") == Shortcut { use_ctrl: false, key: Key::Space });
}

#[test]
fn listener_toggles_with_modifier() {
    let sc = parse_shortcut("ctrl+space");
    let mut st = initial_listener_state();
    assert!(!on_key_event(&mut st, sc, KeyEvent::Press(Key::Space)));
    assert!(!on_key_event(&mut st, sc, KeyEvent::Press(Key::ControlRight)));
    assert!(on_key_event(&mut st, sc, KeyEvent::Press(Key::Space)));
    assert!(!on_key_event(&mut st, sc, KeyEvent::Release(Key::ControlLeft)));
    assert!(!on_key_event(&mut st, sc, KeyEvent::Press(Key::Space)));
    let sc = parse_shortcut("alt+p");
    let mut st = initial_listener_state();
    assert!(!on_key_event(&mut st, sc, KeyEvent::Press(Key::Alt)));
    assert!(!on_key_event(&mut st, sc, KeyEvent::Press(Key::Other)));
    assert!(on_key_event(&mut st, sc, KeyEvent::Press(Key::KeyP)));
    assert!(!on_key_event(&mut st, sc, KeyEvent::Release(Key::Alt)));
    assert!(!on_key_event(&mut st, sc, KeyEvent::Press(Key::KeyP)));
}

#[test]
fn window_and_tray() {
    assert!(toggle_window(true, true) == WindowAction::Hide);
    assert!(toggle_window(false, true) == WindowAction::Show { center: true });
    assert!(toggle_window(false, false) == WindowAction::Show { center: false });
    assert!(tray_menu_action("toggle") == TrayAction::Toggle);
    assert!(tray_menu_action("quit") == TrayAction::Quit);
    assert!(tray_menu_action("other") == TrayAction::Ignore);
    assert!(tray_click_toggles(true, true));
    assert!(!tray_click_toggles(true, false));
}

#[test]
fn toggling_twice_restores_visibility() {
    let first = toggle_window(true, false);
    let visible = first != WindowAction::Hide;
    let second = toggle_window(visible, false);
    assert!(second != WindowAction::Hide);
    let first = toggle_window(false, true);
    let second = toggle_window(first != WindowAction::Hide, true);
    assert!(second == WindowAction::Hide);
}
