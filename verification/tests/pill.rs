use voquill::pill::{
    ctrl_backspace_range, is_control_char, reasoning_label, submitted_text, tool_call_label, tool_result_label,
    type_into_entry, WindowMode, WindowSizes,
};

#[test]
fn window_modes() {
    assert_eq!(WindowMode::from_str("assistant_compact"), WindowMode::AssistantCompact);
    assert_eq!(WindowMode::from_str("assistant_expanded"), WindowMode::AssistantExpanded);
    assert_eq!(WindowMode::from_str("assistant_typing"), WindowMode::AssistantTyping);
    assert_eq!(WindowMode::from_str("dictation"), WindowMode::Dictation);
    assert_eq!(WindowMode::from_str("Assistant_Compact"), WindowMode::Dictation);
    let sizes = WindowSizes { dictation: (1, 2), compact: (3, 4), expanded: (5, 6), typing: (7, 8) };
    assert_eq!(WindowMode::Dictation.dimensions(&sizes), (1, 2));
    assert_eq!(WindowMode::AssistantCompact.dimensions(&sizes), (3, 4));
    assert_eq!(WindowMode::AssistantExpanded.dimensions(&sizes), (5, 6));
    assert_eq!(WindowMode::AssistantTyping.dimensions(&sizes), (7, 8));
}

#[test]
fn ctrl_backspace_deletes_the_previous_word() {
    let text: Vec<u16> = "hello big  world".encode_utf16().chain(std::iter::once(0)).collect();
    assert_eq!(ctrl_backspace_range(&text, 16, 16), Some((11, 16)));
    assert_eq!(ctrl_backspace_range(&text, 11, 16), Some((6, 11)));
    assert_eq!(ctrl_backspace_range(&text, 40, 16), Some((11, 40)));
    assert_eq!(ctrl_backspace_range(&text, 3, 16), Some((0, 3)));
    assert_eq!(ctrl_backspace_range(&text, 0, 16), None);
    assert_eq!(ctrl_backspace_range(&[0], 3, 0), None);
}

#[test]
fn control_characters() {
    assert!(is_control_char('\u{0}'));
    assert!(is_control_char('\u{7f}'));
    assert!(is_control_char('\u{85}'));
    assert!(!is_control_char('a'));
    assert!(!is_control_char('\u{a0}'));
    for c in ['\u{1f}', ' ', '\u{9f}', '\u{a0}', 'é'] {
        assert_eq!(is_control_char(c), c.is_control());
    }
}

#[test]
fn typing_into_the_entry() {
    assert_eq!(submitted_text("  hi  "), Some("hi".to_string()));
    assert_eq!(submitted_text("   "), None);
    assert_eq!(type_into_entry("ab", 'c'), ("abc".to_string(), None));
    assert_eq!(type_into_entry("ab", '\u{8}'), ("a".to_string(), None));
    assert_eq!(type_into_entry("", '\u{8}'), (String::new(), None));
    assert_eq!(type_into_entry(" hi ", '\r'), (String::new(), Some("hi".to_string())));
    assert_eq!(type_into_entry("  ", '\n'), ("  ".to_string(), None));
    assert_eq!(type_into_entry("ab", '\u{1b}'), ("ab".to_string(), None));
}

#[test]
fn assistant_labels() {
    assert_eq!(tool_call_label("search", true), "Used search");
    assert_eq!(tool_call_label("search", false), "Using search\u{2026}");
    assert_eq!(tool_result_label(Some("Web search"), Some("search"), Some("no results")), "Web search \u{2014} no results");
    assert_eq!(tool_result_label(None, Some("search"), Some("")), "search");
    assert_eq!(tool_result_label(None, None, None), "Tool");
    assert_eq!(reasoning_label(true), "Thinking\u{2026}");
    assert_eq!(reasoning_label(false), "Thought process");
}

use voquill::pill::{is_typing_mode, resets_levels, should_show, sticks_on_open, toast_is_error, typing_focus_change, TypingFocusChange, Visibility};

#[test]
fn pill_visibility_and_modes() {
    assert!(!should_show(Visibility::Hidden, true, false));
    assert!(should_show(Visibility::Hidden, false, true));
    assert!(should_show(Visibility::WhileActive, true, false));
    assert!(!should_show(Visibility::WhileActive, false, false));
    assert!(should_show(Visibility::Persistent, false, false));
    assert!(is_typing_mode(true, "type"));
    assert!(!is_typing_mode(true, "voice"));
    assert!(!is_typing_mode(false, "type"));
    assert_eq!(typing_focus_change(false, true), TypingFocusChange::Focus);
    assert_eq!(typing_focus_change(true, false), TypingFocusChange::Clear);
    assert_eq!(typing_focus_change(true, true), TypingFocusChange::Keep);
    assert!(toast_is_error(Some("error")));
    assert!(!toast_is_error(Some("info")));
    assert!(!toast_is_error(None));
    assert!(sticks_on_open(false, true));
    assert!(!sticks_on_open(true, true));
    assert!(resets_levels(false, true));
    assert!(!resets_levels(true, true));
}
