use voquill::accessibility::{
    select_app_matches, ProcessEntry,
    capture_app_identity, check_focused_paste_target, control_type_name, empty_dump_result, empty_text_field_info,
    exe_name_from_path, fingerprint_score, first_max_above, is_container_control_type, is_java_process_name,
    is_non_text_control, is_text_input_focused, is_text_role, jab_child_score, jab_match_threshold, jab_pick_child,
    macos_child_choice, score_element_match, should_skip_control_type, truncate_for_dump, wchar_to_string,
    windows_child_choice, AxElementAttributes, ElementFingerprint, JabElementId, PasteTargetState,
    UiaElementAttributes, UIA_BUTTON, UIA_DOCUMENT, UIA_EDIT, UIA_IMAGE, UIA_PANE,
};

fn s(v: &str) -> Option<String> {
    Some(v.to_string())
}

fn fingerprint() -> ElementFingerprint {
    ElementFingerprint {
        automation_id: s("search"),
        class_name: s("Edit"),
        control_type: UIA_EDIT,
        name: s("Search"),
        framework_id: None,
        child_index: 2,
        ax_role: s("AXTextField"),
        ax_subrole: None,
        ax_title: s("Search"),
        ax_description: None,
        ax_identifier: None,
    }
}

#[test]
fn uia_scores() {
    let fp = fingerprint();
    let exact = UiaElementAttributes { automation_id: s("search"), class_name: s("Edit"), control_type: UIA_EDIT, name: s("Search") };
    assert_eq!(score_element_match(&exact, &fp, 2), 195);
    assert_eq!(score_element_match(&exact, &fp, 0), 190);
    let other_id = UiaElementAttributes { automation_id: s("other"), class_name: s("Edit"), control_type: UIA_EDIT, name: s("Search") };
    assert_eq!(score_element_match(&other_id, &fp, 2), 0);
    let other_type = UiaElementAttributes { automation_id: None, class_name: s("Edit"), control_type: UIA_BUTTON, name: s("Search") };
    assert_eq!(score_element_match(&other_type, &fp, 2), 0);
    let no_id = UiaElementAttributes { automation_id: None, class_name: None, control_type: UIA_EDIT, name: None };
    assert_eq!(score_element_match(&no_id, &fp, 1), 40);
}

#[test]
fn ax_scores() {
    let fp = fingerprint();
    let el = AxElementAttributes { identifier: None, role: s("AXTextField"), subrole: None, title: s("Search"), description: None };
    assert_eq!(fingerprint_score(&el, &fp, 2), 95);
    let wrong_role = AxElementAttributes { identifier: None, role: s("AXButton"), subrole: None, title: s("Search"), description: None };
    assert_eq!(fingerprint_score(&wrong_role, &fp, 2), 0);
    let mut bare = fingerprint();
    bare.ax_role = None;
    bare.ax_title = None;
    let nothing = AxElementAttributes { identifier: None, role: None, subrole: None, title: None, description: None };
    assert_eq!(fingerprint_score(&nothing, &bare, 7), 1);
}

#[test]
fn child_choices() {
    assert_eq!(first_max_above(&vec![0, 5, 9, 9, 3], 0), Some(2));
    assert_eq!(first_max_above(&vec![0, -1], 0), None);
    assert_eq!(windows_child_choice(&vec![0, 0, 0], 1), Some(1));
    assert_eq!(windows_child_choice(&vec![0, 0], 5), None);
    assert_eq!(windows_child_choice(&vec![0, 7, 3], 2), Some(1));
    assert_eq!(macos_child_choice(&vec![Some(3), Some(9), None], 0, true), Some(0));
    assert_eq!(macos_child_choice(&vec![Some(0), Some(9), None], 0, true), Some(1));
    assert_eq!(macos_child_choice(&vec![Some(0), Some(0), None], 2, true), Some(2));
    assert_eq!(macos_child_choice(&vec![Some(0), Some(9)], 0, false), Some(0));
    assert_eq!(macos_child_choice(&vec![Some(0)], 3, false), None);
}

#[test]
fn jab_matching() {
    let seg = JabElementId { name: s("Notes"), role: s("text"), index_in_parent: 1 };
    assert_eq!(jab_child_score(&seg, "Notes", "text", 1), 145);
    assert_eq!(jab_child_score(&seg, "Other", "text", 0), 40);
    assert_eq!(jab_match_threshold(&seg), 100);
    let unnamed = JabElementId { name: s(""), role: s("text"), index_in_parent: 0 };
    assert_eq!(jab_match_threshold(&unnamed), 40);
    assert_eq!(jab_pick_child(&vec![-1, 40, 145, 145], 100), Some(2));
    assert_eq!(jab_pick_child(&vec![-1, 45], 100), None);
}

#[test]
fn java_processes() {
    assert!(is_java_process_name(Some("JAVAW.EXE")));
    assert!(is_java_process_name(Some("java17.exe")));
    assert!(is_java_process_name(Some("OpenWebStart.exe")));
    assert!(!is_java_process_name(Some("notepad.exe")));
    assert!(!is_java_process_name(None));
}

#[test]
fn text_roles_and_control_types() {
    assert!(is_text_role(Some("AXTextArea")));
    assert!(!is_text_role(Some("AXGroup")));
    assert!(!is_text_role(None));
    assert!(is_non_text_control(UIA_BUTTON));
    assert!(!is_non_text_control(UIA_EDIT));
    assert!(should_skip_control_type(0));
    assert!(should_skip_control_type(UIA_IMAGE));
    assert!(is_container_control_type(UIA_PANE));
    assert!(!is_container_control_type(UIA_EDIT));
    assert!(is_text_input_focused(Some(UIA_DOCUMENT)));
    assert!(!is_text_input_focused(Some(UIA_BUTTON)));
    assert!(!is_text_input_focused(None));
    assert_eq!(control_type_name(UIA_EDIT), "Edit");
    assert_eq!(control_type_name(50099), "ControlType(50099)");
    assert_eq!(control_type_name(-3), "ControlType(-3)");
}

#[test]
fn dump_values_escape_and_cut() {
    assert_eq!(truncate_for_dump("a\nb\rc"), "a\\nb\\rc");
    let long: String = "x".repeat(100);
    assert_eq!(truncate_for_dump(&long), format!("{}\u{2026}", "x".repeat(80)));
    assert_eq!(truncate_for_dump(&"y".repeat(80)), "y".repeat(80));
}

#[test]
fn executable_names() {
    assert_eq!(exe_name_from_path("C:\\Program Files\\App\\app.exe"), "app.exe");
    assert_eq!(exe_name_from_path("app.exe"), "app.exe");
    assert_eq!(exe_name_from_path("C:\\dir\\"), "");
    let id = capture_app_identity(s("C:\\Tools\\tool.exe")).unwrap();
    assert_eq!(id.exe_path, s("C:\\Tools\\tool.exe"));
    assert_eq!(id.exe_name, s("tool.exe"));
    assert!(id.bundle_id.is_none());
    assert!(capture_app_identity(None).is_none());
}

#[test]
fn windows_paste_target() {
    assert_eq!(check_focused_paste_target(Some("Progman"), Some(true)), PasteTargetState::NotEditable);
    assert_eq!(check_focused_paste_target(Some("WorkerW"), None), PasteTargetState::NotEditable);
    assert_eq!(check_focused_paste_target(Some("Notepad"), Some(true)), PasteTargetState::Editable);
    assert_eq!(check_focused_paste_target(None, Some(false)), PasteTargetState::NotEditable);
    assert_eq!(check_focused_paste_target(None, None), PasteTargetState::Unknown);
}

#[test]
fn wide_strings_stop_at_nul_and_decode_lossily() {
    let mut buf: Vec<u16> = "Hi".encode_utf16().collect();
    buf.push(0xD83D);
    buf.push(0xDE00);
    buf.push(0xDC00);
    buf.push(0);
    buf.push(b'x' as u16);
    assert_eq!(wchar_to_string(&buf), "Hi\u{1F600}\u{FFFD}");
    assert_eq!(wchar_to_string(&[0x41, 0x42]), "AB");
    assert_eq!(wchar_to_string(&[0]), "");
}

#[test]
fn empty_results() {
    let info = empty_text_field_info();
    assert!(info.cursor_position.is_none() && info.selection_length.is_none() && info.text_content.is_none());
    let dump = empty_dump_result();
    assert!(dump.dump.is_none() && dump.window_title.is_none() && dump.process_name.is_none());
    assert_eq!(dump.element_count, 0);
}

fn proc(pid: u32, path: &str, title: Option<&str>) -> ProcessEntry {
    ProcessEntry { pid, exe_path: path.to_string(), window_title: title.map(|t| t.to_string()) }
}

#[test]
fn app_matches_prefer_full_path() {
    let procs = vec![
        proc(10, "C:\\Old\\Notes.exe", Some("Old notes")),
        proc(11, "C:\\Apps\\NOTES.EXE", Some("Draft")),
        proc(0, "C:\\Apps\\notes.exe", None),
        proc(12, "C:\\Apps\\other.exe", None),
    ];
    let m = select_app_matches(Some("c:\\apps\\notes.exe"), Some("notes.exe"), &procs);
    assert_eq!(m.len(), 1);
    assert_eq!(m[0].pid, 11);
    assert_eq!(m[0].exe_path.as_deref(), Some("C:\\Apps\\NOTES.EXE"));
    assert_eq!(m[0].app_name.as_deref(), Some("notes.exe"));
    assert_eq!(m[0].window_title.as_deref(), Some("Draft"));
}

#[test]
fn app_matches_fall_back_to_name() {
    let procs = vec![proc(10, "D:\\Moved\\Notes.exe", None), proc(12, "C:\\x\\other.exe", None), proc(13, "E:\\notes.EXE", Some("w"))];
    let m = select_app_matches(Some("C:\\Apps\\notes.exe"), Some("Notes.exe"), &procs);
    let pids: Vec<i32> = m.iter().map(|x| x.pid).collect();
    assert_eq!(pids, vec![10, 13]);
    assert!(select_app_matches(None, None, &procs).is_empty());
    assert!(select_app_matches(None, Some("missing.exe"), &procs).is_empty());
}
