use voquill::uia::{
    can_paste_into, context_exceeds_limit, dump_descends, dump_header, element_context_texts, focused_is_java,
    format_dump_line, format_jab_dump_line, framework_is_java, gather_accessibility_dump, get_screen_context,
    get_selected_text, get_text_field_info, join_with_newlines, needs_jab_fallback, truncation_line, unique_texts,
    write_accessibility_fields, write_unavailable, writes_through_jab, read_field_values, FieldRead, ReadOutcome, context_walk_continues, context_walk_start, context_walk_step, ContextParent, DumpReading, DumpTree, FieldWrite, UiaTextReading,
    WriteOutcome,
};
use voquill::accessibility::{UIA_BUTTON, UIA_COMBO_BOX, UIA_EDIT, UIA_PANE, UIA_TEXT, UIA_WINDOW};

fn strings(v: &[&str]) -> Vec<String> {
    v.iter().map(|s| s.to_string()).collect()
}

#[test]
fn text_field_info_from_readings() {
    let info = get_text_field_info(Ok(Some(UiaTextReading {
        document: "héllo world".to_string(),
        selection: Some(("wor".to_string(), "héllo ".to_string())),
    })));
    assert_eq!(info.cursor_position, Some(7));
    assert_eq!(info.selection_length, Some(3));
    assert_eq!(info.text_content, Some("héllo world".to_string()));
    let info = get_text_field_info(Ok(Some(UiaTextReading { document: "x".to_string(), selection: None })));
    assert_eq!((info.cursor_position, info.selection_length), (None, Some(0)));
    let info = get_text_field_info(Ok(None));
    assert!(info.text_content.is_none() && info.selection_length.is_none());
    let info = get_text_field_info(Err("COM".to_string()));
    assert!(info.cursor_position.is_none());
}

#[test]
fn element_context() {
    assert_eq!(element_context_texts(UIA_TEXT, Some(" Title "), Some("Title"), Some(" Help ")), strings(&["Title", "Help"]));
    assert_eq!(element_context_texts(UIA_PANE, Some("Pane"), Some("value"), None), strings(&["Pane"]));
    assert_eq!(element_context_texts(UIA_BUTTON, None, Some(" OK "), Some("OK")), strings(&["OK"]));
    let long = "x".repeat(500);
    assert!(element_context_texts(UIA_TEXT, Some(&long), None, None).is_empty());
}

#[test]
fn screen_context_dedups_and_joins() {
    assert_eq!(unique_texts(strings(&["a", "b", "a", "c", "b"])), strings(&["a", "b", "c"]));
    assert_eq!(join_with_newlines(&strings(&["a", "b"])), "a\nb");
    assert_eq!(join_with_newlines(&vec![]), "");
    let ctx = get_screen_context(Ok(strings(&["Inbox", "[Window: Mail]", "Inbox"])));
    assert_eq!(ctx.screen_context, Some("Inbox\n[Window: Mail]".to_string()));
    assert!(get_screen_context(Ok(vec![])).screen_context.is_none());
    assert!(get_screen_context(Err("fail".to_string())).screen_context.is_none());
}

#[test]
fn context_limit() {
    assert!(!context_exceeds_limit(&vec!["a".repeat(12000)]));
    assert!(context_exceeds_limit(&vec!["a".repeat(6000), "b".repeat(6001)]));
    assert!(context_exceeds_limit(&vec!["é".repeat(6001)]));
}

#[test]
fn paste_and_java_checks() {
    assert!(can_paste_into(false, true, UIA_PANE));
    assert!(can_paste_into(false, false, UIA_COMBO_BOX));
    assert!(!can_paste_into(true, true, UIA_EDIT));
    assert!(!can_paste_into(false, false, UIA_PANE));
    assert!(focused_is_java(Some("javaw.exe"), None));
    assert!(focused_is_java(Some("app.exe"), Some("JavaFX")));
    assert!(!focused_is_java(Some("app.exe"), Some("Win32")));
    assert!(framework_is_java(Some("Java")));
    assert!(!framework_is_java(None));
    assert!(needs_jab_fallback(true, 9));
    assert!(!needs_jab_fallback(true, 10));
    assert!(!needs_jab_fallback(false, 1));
}

#[test]
fn selected_text_falls_back_to_clipboard() {
    assert_eq!(get_selected_text(Ok(Some("sel".to_string())), || panic!("not asked")), Some("sel".to_string()));
    assert_eq!(get_selected_text(Ok(Some(String::new())), || Some("clip".to_string())), Some("clip".to_string()));
    assert_eq!(get_selected_text(Err("x".to_string()), || Some(String::new())), None);
    assert_eq!(get_selected_text(Ok(None), || None), None);
}

#[test]
fn dump_lines() {
    assert!(dump_descends(30, 4999));
    assert!(!dump_descends(31, 0));
    assert!(!dump_descends(0, 5000));
    assert_eq!(truncation_line(2), "    ... (truncated, max 5000 elements reached)");
    assert_eq!(
        format_dump_line(1, UIA_EDIT, Some("Search"), Some("  query  "), true, true, Some("q"), Some(""), Some("Win32"), Some(" Type here ")),
        "  [Edit] \"Search\" value=\"query\" (settable, text-pattern, id=q, framework=Win32, help=\"Type here\")"
    );
    assert_eq!(format_dump_line(0, 50099, None, Some("   "), false, false, None, None, None, None), "[ControlType(50099)] \"\"");
    let long = "v".repeat(120);
    assert_eq!(
        format_dump_line(0, UIA_TEXT, Some("n"), Some(&long), false, false, None, None, None, None),
        format!("[Text] \"n\" value=\"{}...\"", "v".repeat(100))
    );
    assert_eq!(dump_header(Some("Doc"), 42, Some("word.exe"), Some("Win32")), "[Window] \"Doc\" (pid=42) process=word.exe framework=Win32");
    assert_eq!(dump_header(None, 0, None, None), "[Window] \"\"");
}

#[test]
fn jab_dump_lines() {
    assert_eq!(
        format_jab_dump_line(1, "text", "Notes", "", true, "hello", true, "enabled,focused"),
        "  [text] \"Notes\" text=\"hello\" (editable, action, states=enabled,focused)"
    );
    assert_eq!(format_jab_dump_line(0, "", "", "d", false, "ignored", false, ""), "[unknown] \"\" desc=\"d\"");
}

#[test]
fn dumps_assembled() {
    let tree = |lines: &[&str]| {
        let mut t = DumpTree::new(lines[0].to_string());
        for l in &lines[1..] {
            assert!(t.add_child(1, l.to_string()));
        }
        t
    };
    let reading = |lines: &[&str], java: bool, jab: Option<(&str, usize)>| DumpReading {
        window_title: Some("T".to_string()),
        process_name: Some("p.exe".to_string()),
        tree: tree(lines),
        is_java_app: java,
        jab_dump: jab.map(|(d, c)| (d.to_string(), c)),
    };
    let d = gather_accessibility_dump(Ok(Some(reading(&["[Window] \"T\"", "  [Edit] \"\""], false, None))));
    assert_eq!(d.dump, Some("[Window] \"T\"\n  [Edit] \"\"".to_string()));
    assert_eq!(d.element_count, 2);
    assert_eq!(d.window_title, Some("T".to_string()));
    let d = gather_accessibility_dump(Ok(Some(reading(&["H", "a"], true, Some(("[text] x", 7))))));
    assert_eq!(d.dump, Some("H\n[text] x".to_string()));
    assert_eq!(d.element_count, 8);
    let d = gather_accessibility_dump(Ok(Some(reading(&["H"], true, None))));
    assert_eq!(d.element_count, 1);
    assert!(d.dump.unwrap().ends_with("\n\nWARNING: This appears to be a Java application but the accessibility tree is not visible. Ensure Java Access Bridge is enabled and the .accessibility.properties file is configured."));
    let d = gather_accessibility_dump(Ok(None));
    assert!(d.dump.is_none() && d.window_title.is_none());
    assert_eq!(d.element_count, 0);
    let d = gather_accessibility_dump(Err("uia".to_string()));
    assert!(d.dump.is_none() && d.process_name.is_none());
    assert_eq!(d.element_count, 0);
}

#[test]
fn dump_stops_at_the_element_limit() {
    let mut t = DumpTree::new("[Window] \"Big\"".to_string());
    for _ in 0..4999 {
        assert!(t.add_child(1, "  [Text] \"x\"".to_string()));
    }
    assert_eq!(t.element_count(), 5000);
    assert!(t.is_full());
    assert!(!t.add_child(2, "  [Text] \"y\"".to_string()));
    assert_eq!(t.element_count(), 5000);
    let d = gather_accessibility_dump(Ok(Some(DumpReading {
        window_title: None,
        process_name: None,
        tree: t,
        is_java_app: false,
        jab_dump: None,
    })));
    assert_eq!(d.element_count, 5000);
    assert!(d.dump.unwrap().ends_with("\n    ... (truncated, max 5000 elements reached)"));
}

#[test]
fn screen_context_drops_empty_pieces() {
    let ctx = get_screen_context(Ok(strings(&["", "Inbox", "", "Inbox"])));
    assert_eq!(ctx.screen_context, Some("Inbox".to_string()));
    assert!(get_screen_context(Ok(strings(&["", ""]))).screen_context.is_none());
}

#[test]
fn context_walk_gathers_outward() {
    let walk = context_walk_start(strings(&["Body"]));
    assert!(context_walk_continues(&walk));
    let walk = context_walk_step(
        walk,
        ContextParent {
            control_type: UIA_PANE,
            name: Some("  Editor ".to_string()),
            child_texts: vec![strings(&["Toolbar"]), strings(&["Status", "Ready"])],
        },
    );
    assert_eq!(walk.levels_up, 1);
    assert!(!walk.done);
    let walk = context_walk_step(walk, ContextParent { control_type: UIA_PANE, name: Some("x".to_string()), child_texts: vec![] });
    assert_eq!(walk.levels_up, 2);
    let walk = context_walk_step(
        walk,
        ContextParent { control_type: UIA_WINDOW, name: Some(" Notes ".to_string()), child_texts: vec![strings(&["ignored"])] },
    );
    assert!(walk.done);
    assert!(!context_walk_continues(&walk));
    assert_eq!(walk.texts, strings(&["Body", "Editor", "Toolbar", "Status", "Ready", "[Window: Notes]"]));
    let after = context_walk_step(walk, ContextParent { control_type: UIA_PANE, name: Some("More".to_string()), child_texts: vec![] });
    assert_eq!(after.texts.len(), 6);
}

#[test]
fn context_walk_stops_past_the_length_limit() {
    let walk = context_walk_start(vec![]);
    let big = vec![strings(&[&"a".repeat(7000)]), strings(&[&"b".repeat(6000)]), strings(&["never"])];
    let walk = context_walk_step(walk, ContextParent { control_type: UIA_PANE, name: None, child_texts: big });
    assert!(walk.done);
    assert_eq!(walk.levels_up, 0);
    assert_eq!(walk.texts.len(), 2);
    let mut many = Vec::new();
    for i in 0..100 {
        many.push(strings(&[&format!("c{}", i)]));
    }
    let walk = context_walk_step(context_walk_start(vec![]), ContextParent { control_type: UIA_PANE, name: None, child_texts: many });
    assert_eq!(walk.texts.len(), 80);
    let mut w = context_walk_start(vec![]);
    for _ in 0..20 {
        w = context_walk_step(w, ContextParent { control_type: UIA_PANE, name: None, child_texts: vec![] });
    }
    assert_eq!(w.levels_up, 20);
    assert!(!context_walk_continues(&w));
}

#[test]
fn write_results_are_tallied() {
    let writes = vec![
        FieldWrite { app_pid: 10, element_index_path: vec![0, 2], outcome: WriteOutcome::Written },
        FieldWrite { app_pid: 11, element_index_path: vec![], outcome: WriteOutcome::JabFailed("no bridge".to_string()) },
        FieldWrite { app_pid: 12, element_index_path: vec![], outcome: WriteOutcome::NoWindow },
        FieldWrite { app_pid: 13, element_index_path: vec![1], outcome: WriteOutcome::ResolveFailed("gone".to_string()) },
        FieldWrite { app_pid: -4, element_index_path: vec![3, 1, 4], outcome: WriteOutcome::PasteFailed("busy".to_string()) },
    ];
    let r = write_accessibility_fields(&writes);
    assert_eq!((r.succeeded, r.failed), (1, 4));
    assert_eq!(
        r.errors,
        strings(&[
            "JAB write failed for PID 11: no bridge",
            "No window found for PID 12",
            "gone",
            "Write failed for PID -4 path [3, 1, 4]: paste failed: busy",
        ])
    );
    let u = write_unavailable(3, "E_FAIL");
    assert_eq!((u.succeeded, u.failed), (0, 3));
    assert_eq!(u.errors, strings(&["Failed to create UIAutomation: E_FAIL"]));
    assert!(writes_through_jab(Some("jab")));
    assert!(!writes_through_jab(Some("uia")));
    assert!(!writes_through_jab(None));
}

#[test]
fn field_values_are_shaped_per_read() {
    let reads = vec![
        FieldRead { app_pid: 9, outcome: ReadOutcome::JabRead(Some("java text".to_string())) },
        FieldRead { app_pid: 9, outcome: ReadOutcome::JabFailed("bridge down".to_string()) },
        FieldRead { app_pid: 77, outcome: ReadOutcome::NoWindow },
        FieldRead { app_pid: 3, outcome: ReadOutcome::ResolveFailed("gone".to_string()) },
        FieldRead { app_pid: 3, outcome: ReadOutcome::Resolved { value: Some("v".to_string()), document: Some("doc".to_string()) } },
        FieldRead { app_pid: 3, outcome: ReadOutcome::Resolved { value: None, document: Some("doc".to_string()) } },
        FieldRead { app_pid: 3, outcome: ReadOutcome::Resolved { value: None, document: Some(String::new()) } },
        FieldRead { app_pid: 3, outcome: ReadOutcome::Resolved { value: None, document: None } },
    ];
    let r = read_field_values(Ok(reads), 8);
    let got: Vec<(Option<String>, Option<String>)> = r.into_iter().map(|x| (x.value, x.error)).collect();
    assert_eq!(
        got,
        vec![
            (Some("java text".to_string()), None),
            (None, Some("bridge down".to_string())),
            (None, Some("No window for PID 77".to_string())),
            (None, Some("gone".to_string())),
            (Some("v".to_string()), None),
            (Some("doc".to_string()), None),
            (Some(String::new()), None),
            (Some(String::new()), None),
        ]
    );
    let r = read_field_values(Err("COM off".to_string()), 2);
    assert_eq!(r.len(), 2);
    assert!(r.iter().all(|x| x.value.is_none() && x.error.as_deref() == Some("Failed to create UIAutomation: COM off")));
}
