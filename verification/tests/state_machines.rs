use voquill::ax::{bind_target, insertion_verdict, paste_target_from_probe, window_and_app_names, AxAncestor, AxPasteProbe, BindTarget};
use voquill::accessibility::PasteTargetState;
use voquill::emitters::{level_bin_index, ChunkEmitter, EmitThrottle, LevelEmitter};
use voquill::order::stable_order_by_key;
use voquill::recorder::{
    preferred_stream_config, start_failure, CachedDevice, RecordingError, RecordingManager, SupportedInputRange,
};

fn ancestor(role: Option<&str>, title: Option<&str>) -> AxAncestor {
    AxAncestor { role: role.map(|s| s.to_string()), title: title.map(|s| s.to_string()) }
}

fn probe() -> AxPasteProbe {
    AxPasteProbe { read_failed: false, has_focus: true, role: None, inside_web_area: false, selected_text_settable: false, value_settable: false }
}

#[test]
fn bind_targets() {
    assert_eq!(bind_target(Some("AXTextArea"), Some(Some("AXTextField"))), BindTarget::Focused);
    assert_eq!(bind_target(Some("AXGroup"), Some(Some("AXTextField"))), BindTarget::UnderCursor);
    assert_eq!(bind_target(Some("AXGroup"), Some(Some("AXButton"))), BindTarget::Focused);
    assert_eq!(bind_target(None, None), BindTarget::Focused);
}

#[test]
fn walk_up_finds_window_and_app() {
    let chain = vec![
        ancestor(Some("AXGroup"), Some("g")),
        ancestor(Some("AXWindow"), None),
        ancestor(Some("AXWindow"), Some("Outer")),
        ancestor(Some("AXWindow"), Some("Ignored")),
        ancestor(Some("AXApplication"), Some("Mail")),
        ancestor(Some("AXWindow"), Some("Beyond")),
    ];
    assert_eq!(window_and_app_names(&chain), (Some("Outer".to_string()), Some("Mail".to_string())));
    assert_eq!(window_and_app_names(&vec![]), (None, None));
    let mut long: Vec<AxAncestor> = (0..20).map(|_| ancestor(Some("AXGroup"), None)).collect();
    long.push(ancestor(Some("AXApplication"), Some("Far")));
    assert_eq!(window_and_app_names(&long), (None, None));
}

#[test]
fn macos_paste_targets() {
    assert_eq!(paste_target_from_probe(&AxPasteProbe { read_failed: true, ..probe() }), PasteTargetState::Unknown);
    assert_eq!(paste_target_from_probe(&AxPasteProbe { has_focus: false, ..probe() }), PasteTargetState::NotEditable);
    assert_eq!(paste_target_from_probe(&AxPasteProbe { role: Some("AXSearchField".to_string()), inside_web_area: true, ..probe() }), PasteTargetState::Editable);
    assert_eq!(paste_target_from_probe(&AxPasteProbe { inside_web_area: true, value_settable: true, ..probe() }), PasteTargetState::Unknown);
    assert_eq!(paste_target_from_probe(&AxPasteProbe { value_settable: true, ..probe() }), PasteTargetState::Editable);
    assert_eq!(paste_target_from_probe(&probe()), PasteTargetState::NotEditable);
}

#[test]
fn insertions_that_change_nothing_fail() {
    assert_eq!(insertion_verdict(&Some("a".to_string()), &Some("a".to_string())), Err("AXSelectedText accepted but field value unchanged".to_string()));
    assert_eq!(insertion_verdict(&Some("a".to_string()), &Some("ab".to_string())), Ok(()));
    assert_eq!(insertion_verdict(&None, &Some("a".to_string())), Ok(()));
}

#[test]
fn throttle_spaces_events() {
    let mut t = EmitThrottle::new(48);
    assert!(t.try_emit(1000));
    assert!(!t.try_emit(1047));
    assert!(t.try_emit(1048));
    assert!(!t.try_emit(900));
    assert_eq!(t.last_emit_ms, Some(1048));
    let mut l = LevelEmitter::new();
    assert!(!l.should_emit(0, 0));
    assert!(l.should_emit(5, 0));
    assert!(!l.should_emit(5, 47));
    assert!(l.should_emit(5, 48));
}

#[test]
fn level_bins() {
    assert_eq!(level_bin_index(0, 24), 0);
    assert_eq!(level_bin_index(23, 24), 11);
    assert_eq!(level_bin_index(5, 5), 5);
    assert_eq!(level_bin_index(30, 25), 11);
    assert_eq!(level_bin_index(3, 36), 1);
}

#[test]
fn chunks_keep_every_sample() {
    let mut e: ChunkEmitter<i32> = ChunkEmitter::new();
    let mut sent: Vec<i32> = Vec::new();
    let batches: Vec<(Vec<i32>, u64)> = vec![(vec![1, 2], 0), (vec![3], 50), (vec![], 120), (vec![4, 5], 100), (vec![6], 250)];
    let mut chunks = 0;
    for (b, t) in &batches {
        if let Some(c) = e.emit(b, *t) {
            chunks += 1;
            sent.extend(c);
        }
    }
    assert_eq!(chunks, 3);
    sent.extend(e.buffer.iter().copied());
    assert_eq!(sent, vec![1, 2, 3, 4, 5, 6]);
    assert!(e.buffer.is_empty());
}

#[test]
fn recorder_cycle() {
    let mut r = RecordingManager::new();
    assert!(matches!(r.stop(10), Err(RecordingError::NotRecording)));
    assert!(r.begin_start().is_ok());
    assert!(r.finish_start(Ok((48000, CachedDevice { host_id: 1, device_name: "Mic".to_string() }))).is_ok());
    assert!(matches!(r.begin_start(), Err(RecordingError::AlreadyRecording)));
    assert_eq!(r.current_sample_rate(), Some(48000));
    assert!(matches!(r.stop(100), Ok((48000, 400))));
    assert!(matches!(r.stop(100), Err(RecordingError::NotRecording)));
    assert_eq!(r.cached_device.as_ref().map(|d| d.device_name.clone()), Some("Mic".to_string()));
    r.set_preferred_input_device(Some("  Yeti  ".to_string()));
    assert_eq!(r.preferred_input, Some("Yeti".to_string()));
    assert!(r.cached_device.is_none());
    assert!(matches!(r.finish_start(Err(RecordingError::InputDeviceUnavailable)), Err(RecordingError::InputDeviceUnavailable)));
    assert_eq!(r.current_sample_rate(), None);
    r.clear_device_cache();
    assert!(matches!(start_failure(None), RecordingError::InputDeviceUnavailable));
    assert!(matches!(start_failure(Some(RecordingError::StreamPlay("x".to_string()))), RecordingError::StreamPlay(_)));
}

#[test]
fn stable_order() {
    assert_eq!(stable_order_by_key(&[3, 1, 2, 1]), vec![1, 3, 2, 0]);
    assert_eq!(stable_order_by_key(&[]), Vec::<usize>::new());
}

use voquill::screen_capture::{frontmost_window_id, recognized_text, WindowInfo};

fn window(pid: Option<i32>, number: Option<u32>, layer: Option<isize>) -> WindowInfo {
    WindowInfo { owner_pid: pid, window_number: number, layer }
}

#[test]
fn frontmost_window_prefers_normal_layer() {
    let windows = vec![
        window(Some(9), Some(1), Some(0)),
        window(Some(7), Some(0), Some(0)),
        window(Some(7), Some(5), Some(25)),
        window(Some(7), Some(6), None),
        window(Some(7), Some(8), Some(0)),
    ];
    assert_eq!(frontmost_window_id(&windows, 7), Some(6));
    assert_eq!(frontmost_window_id(&windows[..3].to_vec(), 7), Some(5));
    assert_eq!(frontmost_window_id(&windows, 3), None);
}

#[test]
fn recognized_lines_are_joined() {
    let c = vec![Some("  Hello ".to_string()), None, Some("   ".to_string()), Some("World".to_string())];
    assert_eq!(recognized_text(&c), Some("Hello\nWorld".to_string()));
    assert_eq!(recognized_text(&vec![None, Some(" ".to_string())]), None);
}

fn range(channels: u16, min_sample_rate: u32, max_sample_rate: u32) -> SupportedInputRange {
    SupportedInputRange { channels, min_sample_rate, max_sample_rate }
}

#[test]
fn stream_prefers_sixteen_kilohertz_at_default_channels() {
    let ranges = vec![range(2, 8000, 48000), range(1, 44100, 48000), range(1, 8000, 16000)];
    let cfg = preferred_stream_config(&ranges, 1, 48000);
    assert_eq!(cfg.channels, 1);
    assert_eq!(cfg.sample_rate, 16000);
}

#[test]
fn stream_keeps_default_rate_when_no_range_offers_it() {
    let ranges = vec![range(2, 8000, 48000), range(1, 22050, 48000)];
    let cfg = preferred_stream_config(&ranges, 1, 44100);
    assert_eq!(cfg.channels, 1);
    assert_eq!(cfg.sample_rate, 44100);
    let none = preferred_stream_config(&vec![], 2, 48000);
    assert_eq!(none.sample_rate, 48000);
    assert_eq!(none.channels, 2);
}
