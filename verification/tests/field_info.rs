use voquill::accessibility::{AppIdentity, ElementFingerprint, UIA_BUTTON, UIA_EDIT, UIA_GROUP, UIA_PANE, UIA_WINDOW};
use voquill::field_info::{
    focused_app_pid, get_focused_field_info, jab_get_focused_field_info, AccessibilityFieldInfo, JabFocusReading,
    JabLevel, UiaAncestorStep, UiaFocusReading,
};

fn s(v: &str) -> Option<String> {
    Some(v.to_string())
}

fn fp(name: &str, index: usize) -> ElementFingerprint {
    ElementFingerprint {
        automation_id: None,
        class_name: None,
        control_type: UIA_PANE,
        name: s(name),
        framework_id: None,
        child_index: index,
        ax_role: None,
        ax_subrole: None,
        ax_title: None,
        ax_description: None,
        ax_identifier: None,
    }
}

fn step(found: Option<ElementFingerprint>, parent_control_type: i32, parent_name: &str) -> UiaAncestorStep {
    UiaAncestorStep { found, parent_control_type, parent_name: s(parent_name) }
}

fn identity() -> Option<AppIdentity> {
    Some(AppIdentity { exe_path: s("C:\\apps\\notes.exe"), exe_name: s("notes.exe"), bundle_id: None })
}

fn reading(app_name: &str, steps: Vec<UiaAncestorStep>) -> UiaFocusReading {
    UiaFocusReading {
        pid_value: Some(4242),
        app_name: s(app_name),
        framework: s("Win32"),
        app_identity: identity(),
        jab_info: None,
        control_type: UIA_EDIT,
        name: s("Body"),
        help_text: None,
        value: s("hello"),
        is_settable: false,
        has_text_pattern: true,
        steps,
    }
}

fn jab_field() -> AccessibilityFieldInfo {
    AccessibilityFieldInfo {
        role: s("text"),
        title: None,
        description: None,
        value: None,
        placeholder: None,
        app_pid: Some(4242),
        app_name: s("javaw.exe"),
        window_title: s("Form"),
        is_settable: true,
        element_index_path: vec![0, 3],
        fingerprint_chain: vec![],
        can_paste: false,
        backend: s("jab"),
        jab_string_path: vec![],
        app_identity: None,
    }
}

#[test]
fn focused_pid_must_be_positive() {
    assert_eq!(focused_app_pid(Some(17)), Some(17));
    assert_eq!(focused_app_pid(Some(0)), None);
    assert_eq!(focused_app_pid(Some(-3)), None);
    assert_eq!(focused_app_pid(None), None);
}

#[test]
fn failed_uia_reading_records_nothing() {
    assert!(get_focused_field_info(Err("no focus".to_string())).is_none());
}

#[test]
fn uia_walk_stops_at_window_and_records_outermost_first() {
    let steps = vec![
        step(Some(fp("body", 1)), UIA_PANE, "editor"),
        step(None, UIA_GROUP, "group"),
        step(Some(fp("editor", 4)), UIA_WINDOW, "Notes - draft"),
        step(Some(fp("beyond", 9)), UIA_PANE, "desktop"),
    ];
    let info = get_focused_field_info(Ok(reading("notes.exe", steps))).unwrap();
    assert_eq!(info.role.as_deref(), Some("Edit"));
    assert_eq!(info.title.as_deref(), Some("Body"));
    assert_eq!(info.value.as_deref(), Some("hello"));
    assert_eq!(info.app_pid, Some(4242));
    assert_eq!(info.app_name.as_deref(), Some("notes.exe"));
    assert_eq!(info.window_title.as_deref(), Some("Notes - draft"));
    assert_eq!(info.element_index_path, vec![4, 1]);
    assert_eq!(info.fingerprint_chain.len(), 2);
    assert_eq!(info.fingerprint_chain[0].name.as_deref(), Some("editor"));
    assert_eq!(info.fingerprint_chain[1].name.as_deref(), Some("body"));
    assert!(info.can_paste);
    assert!(!info.is_settable);
    assert!(info.backend.is_none());
    assert!(info.jab_string_path.is_empty());
    assert_eq!(info.app_identity.unwrap().exe_name.as_deref(), Some("notes.exe"));
}

#[test]
fn uia_walk_visits_at_most_twenty_levels() {
    let mut steps = Vec::new();
    for i in 0..30 {
        steps.push(step(Some(fp("level", i)), UIA_PANE, "pane"));
    }
    let info = get_focused_field_info(Ok(reading("notes.exe", steps))).unwrap();
    assert_eq!(info.element_index_path.len(), 20);
    assert_eq!(info.element_index_path[0], 19);
    assert_eq!(info.element_index_path[19], 0);
    assert!(info.window_title.is_none());
}

#[test]
fn settable_value_is_not_pasted_into() {
    let mut rd = reading("notes.exe", vec![]);
    rd.is_settable = true;
    rd.control_type = UIA_BUTTON;
    rd.pid_value = Some(0);
    let info = get_focused_field_info(Ok(rd)).unwrap();
    assert!(info.is_settable);
    assert!(!info.can_paste);
    assert_eq!(info.role.as_deref(), Some("Button"));
    assert_eq!(info.app_pid, None);
    assert!(info.element_index_path.is_empty());
}

#[test]
fn java_application_uses_the_bridge_field_with_its_identity() {
    let mut rd = reading("javaw.exe", vec![step(Some(fp("x", 2)), UIA_WINDOW, "Form")]);
    rd.jab_info = Some(jab_field());
    let info = get_focused_field_info(Ok(rd)).unwrap();
    assert_eq!(info.backend.as_deref(), Some("jab"));
    assert_eq!(info.element_index_path, vec![0, 3]);
    assert_eq!(info.app_identity.unwrap().exe_path.as_deref(), Some("C:\\apps\\notes.exe"));
}

#[test]
fn java_application_without_bridge_field_falls_back_to_uia() {
    let mut rd = reading("notes.exe", vec![step(Some(fp("x", 2)), UIA_WINDOW, "Form")]);
    rd.framework = s("JavaFX");
    let info = get_focused_field_info(Ok(rd)).unwrap();
    assert!(info.backend.is_none());
    assert_eq!(info.element_index_path, vec![2]);
    assert_eq!(info.window_title.as_deref(), Some("Form"));
}

#[test]
fn bridge_field_is_ignored_for_other_applications() {
    let mut rd = reading("notes.exe", vec![]);
    rd.jab_info = Some(jab_field());
    let info = get_focused_field_info(Ok(rd)).unwrap();
    assert!(info.backend.is_none());
    assert_eq!(info.role.as_deref(), Some("Edit"));
}

fn level(index_in_parent: i32, sibling_index: Option<usize>, name: &str, role: &str) -> JabLevel {
    JabLevel { index_in_parent, sibling_index, name: name.to_string(), role: role.to_string() }
}

#[test]
fn jab_without_reading_records_nothing() {
    assert!(jab_get_focused_field_info(None, 7, Some("javaw.exe"), None).is_none());
}

#[test]
fn jab_walk_records_paths_outermost_first_up_to_unknown_index() {
    let rd = JabFocusReading {
        name: "".to_string(),
        role: "text".to_string(),
        states: "enabled,focusable,editable".to_string(),
        description: "Notes field".to_string(),
        text: Some("draft".to_string()),
        levels: vec![
            level(2, None, "body", "text"),
            level(-1, Some(3), "", "panel"),
            level(-1, None, "lost", "frame"),
            level(0, None, "root", "root pane"),
        ],
    };
    let info = jab_get_focused_field_info(Some(rd), 7, Some("javaw.exe"), s("Form")).unwrap();
    assert_eq!(info.role.as_deref(), Some("text"));
    assert!(info.title.is_none());
    assert_eq!(info.description.as_deref(), Some("Notes field"));
    assert_eq!(info.value.as_deref(), Some("draft"));
    assert!(info.is_settable);
    assert_eq!(info.app_pid, Some(7));
    assert_eq!(info.app_name.as_deref(), Some("javaw.exe"));
    assert_eq!(info.window_title.as_deref(), Some("Form"));
    assert_eq!(info.element_index_path, vec![3, 2]);
    assert_eq!(info.jab_string_path.len(), 2);
    assert_eq!(info.jab_string_path[0].index_in_parent, 3);
    assert!(info.jab_string_path[0].name.is_none());
    assert_eq!(info.jab_string_path[0].role.as_deref(), Some("panel"));
    assert_eq!(info.jab_string_path[1].name.as_deref(), Some("body"));
    assert_eq!(info.backend.as_deref(), Some("jab"));
    assert!(!info.can_paste);
    assert!(info.fingerprint_chain.is_empty());
    assert!(info.app_identity.is_none());
}

#[test]
fn jab_field_without_editable_state_or_text() {
    let rd = JabFocusReading {
        name: "Total".to_string(),
        role: "label".to_string(),
        states: "enabled,visible".to_string(),
        description: "".to_string(),
        text: Some("".to_string()),
        levels: vec![],
    };
    let info = jab_get_focused_field_info(Some(rd), 7, None, None).unwrap();
    assert!(!info.is_settable);
    assert!(info.value.is_none());
    assert!(info.description.is_none());
    assert_eq!(info.title.as_deref(), Some("Total"));
    assert!(info.app_name.is_none());
    assert!(info.element_index_path.is_empty());
}
