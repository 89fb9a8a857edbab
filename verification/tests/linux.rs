use voquill::linux::{
    focused_class_hint, is_ctrl_shift_v_window, is_wayland, nonempty_selection, paste_methods, paste_target,
    paste_uses_shift, should_paste, wayland_paste_modifiers, wayland_session, work_area_insets, wtype_key_args,
    PasteMethod,
};

fn hint(name: &str, class: &str) -> Option<(String, String)> {
    Some((name.to_string(), class.to_string()))
}

#[test]
fn blank_text_is_not_pasted() {
    assert!(!should_paste("  \n\t"));
    assert!(should_paste(" hi "));
}

#[test]
fn debug_override_replaces_text() {
    assert_eq!(paste_target("a".to_string(), None), "a");
    assert_eq!(paste_target("a".to_string(), Some("b".to_string())), "b");
}

#[test]
fn shift_for_terminals() {
    assert!(paste_uses_shift(Some("ctrl+shift+v"), false));
    assert!(!paste_uses_shift(Some("ctrl+v"), true));
    assert!(paste_uses_shift(None, true));
    assert!(is_ctrl_shift_v_window(&hint("gnome-terminal-server", "Gnome-terminal")));
    assert!(is_ctrl_shift_v_window(&hint("code", "Code")));
    assert!(is_ctrl_shift_v_window(&hint("st", "")));
    assert!(!is_ctrl_shift_v_window(&hint("firefox", "Firefox")));
    assert!(!is_ctrl_shift_v_window(&None));
}

#[test]
fn first_named_class_hint() {
    assert_eq!(focused_class_hint(vec![None, hint("", ""), hint("kitty", "kitty"), hint("x", "y")]), hint("kitty", "kitty"));
    assert_eq!(focused_class_hint(vec![None, hint("", "")]), None);
    let mut deep: Vec<Option<(String, String)>> = (0..16).map(|_| None).collect();
    deep.push(hint("late", "late"));
    assert_eq!(focused_class_hint(deep), None);
}

#[test]
fn wayland_detection() {
    assert!(is_wayland(None, true));
    assert!(!is_wayland(None, false));
    assert!(!is_wayland(Some("X11"), true));
    assert!(!is_wayland(Some("wayland,x11"), true));
    assert!(is_wayland(Some("wayland"), true));
    assert!(!wayland_session(Some("x11"), true));
    assert!(wayland_session(Some("wayland"), true));
}

#[test]
fn wtype_arguments() {
    assert_eq!(wtype_key_args(&["ctrl", "shift"], "v"), vec!["-M", "ctrl", "-M", "shift", "-k", "v", "-m", "shift", "-m", "ctrl"]);
    assert_eq!(wtype_key_args(&[], "c"), vec!["-k", "c"]);
    assert_eq!(wayland_paste_modifiers(true), vec!["ctrl", "shift"]);
    assert_eq!(wayland_paste_modifiers(false), vec!["ctrl"]);
}

#[test]
fn paste_fallbacks() {
    assert_eq!(paste_methods(true), vec![PasteMethod::WaylandClipboard, PasteMethod::X11Clipboard, PasteMethod::WtypeText, PasteMethod::SimulatedTyping]);
    assert_eq!(paste_methods(false), vec![PasteMethod::X11Clipboard, PasteMethod::SimulatedTyping]);
}

#[test]
fn selections() {
    assert_eq!(nonempty_selection(Some("x".to_string())), Some("x".to_string()));
    assert_eq!(nonempty_selection(Some(String::new())), None);
    assert_eq!(nonempty_selection(None), None);
}

#[test]
fn insets() {
    assert_eq!(work_area_insets((0, 0, 1920, 1080), (0, 32, 1920, 1000)), (32, 48, 0, 0));
    assert_eq!(work_area_insets((1920, 0, 1280, 1024), (1980, 0, 1220, 1024)), (0, 0, 60, 0));
}
