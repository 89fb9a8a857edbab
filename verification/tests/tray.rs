use voquill::tray::{menu_icon_variant, route_menu_event, tray_menu_entries, MenuEntry, MenuIconVariant, TrayAction, TrayMenuConfig, TrayMenuItemConfig};

fn item(id: &str, label: &str, checked: bool) -> TrayMenuItemConfig {
    TrayMenuItemConfig { id: id.to_string(), label: label.to_string(), checked }
}

fn config(update_available: bool) -> TrayMenuConfig {
    TrayMenuConfig {
        update_available,
        microphones: vec![item("usb", "USB Mic", true), item("built-in", "Built-in", false)],
        tones: vec![item("formal", "Formal", false)],
        transcription_providers: vec![item("local", "Local", true)],
        post_processing_providers: vec![],
    }
}

fn describe(entries: &[MenuEntry]) -> Vec<String> {
    entries
        .iter()
        .map(|e| match e {
            MenuEntry::Item { id, label } => format!("{id}={label}"),
            MenuEntry::Separator => "-".to_string(),
            MenuEntry::Submenu { label, items } => format!(
                "{label}[{}]",
                items.iter().map(|i| format!("{}:{}:{}", i.id, i.label, i.checked)).collect::<Vec<_>>().join(",")
            ),
        })
        .collect()
}

#[test]
fn menu_layout_without_update() {
    assert_eq!(
        describe(&tray_menu_entries(&config(false))),
        vec![
            "navigate-home=Home",
            "navigate-history=History",
            "navigate-dictionary=Dictionary",
            "navigate-styles=Styles",
            "navigate-settings=Settings",
            "-",
            "copy-last-transcription=Copy Last Transcription",
            "-",
            "Microphone[mic-usb:USB Mic:true,mic-built-in:Built-in:false]",
            "Style[tone-formal:Formal:false]",
            "Transcription Provider[transcription-local:Local:true]",
            "Post-processing Provider[]",
            "-",
            "quit-voquill=Quit Voquill",
        ]
    );
}

#[test]
fn menu_offers_update_when_available() {
    let d = describe(&tray_menu_entries(&config(true)));
    assert_eq!(d.len(), 15);
    assert_eq!(d[13], "install-update=Install Update");
    assert_eq!(d[14], "quit-voquill=Quit Voquill");
}

#[test]
fn icon_follows_update() {
    assert_eq!(menu_icon_variant(true), MenuIconVariant::Update);
    assert_eq!(menu_icon_variant(false), MenuIconVariant::Default);
}

#[test]
fn menu_events_route_to_actions() {
    assert!(matches!(route_menu_event("navigate-settings"), TrayAction::Navigate(r) if r == "settings"));
    assert!(matches!(route_menu_event("copy-last-transcription"), TrayAction::CopyLastTranscription));
    assert!(matches!(route_menu_event("mic-usb"), TrayAction::SelectMicrophone(r) if r == "usb"));
    assert!(matches!(route_menu_event("tone-"), TrayAction::SelectTone(r) if r.is_empty()));
    assert!(matches!(route_menu_event("transcription-local"), TrayAction::SelectTranscriptionProvider(r) if r == "local"));
    assert!(matches!(route_menu_event("post-processing-openai"), TrayAction::SelectPostProcessingProvider(r) if r == "openai"));
    assert!(matches!(route_menu_event("install-update"), TrayAction::InstallUpdate));
    assert!(matches!(route_menu_event("quit-voquill"), TrayAction::Quit));
    assert!(matches!(route_menu_event("navigate-elsewhere"), TrayAction::Ignore));
    assert!(matches!(route_menu_event(""), TrayAction::Ignore));
}

#[test]
fn every_built_entry_routes_back() {
    for entry in tray_menu_entries(&config(true)) {
        match entry {
            MenuEntry::Item { id, .. } => assert!(!matches!(route_menu_event(&id), TrayAction::Ignore), "{id}"),
            MenuEntry::Submenu { items, .. } => {
                for i in items {
                    assert!(!matches!(route_menu_event(&i.id), TrayAction::Ignore), "{}", i.id);
                }
            }
            MenuEntry::Separator => {}
        }
    }
    assert!(matches!(route_menu_event("mic-tone-x"), TrayAction::SelectMicrophone(r) if r == "tone-x"));
}
