use voquill::audio_devices::is_preferred_input_device_name;

#[test]
fn preferred_name_blocks_low_quality_keywords() {
    assert!(!is_preferred_input_device_name("AirPods Pro Microphone"));
    assert!(!is_preferred_input_device_name("Bluetooth Mic"));
}

#[test]
fn preferred_name_detects_microphones() {
    assert!(is_preferred_input_device_name("Built-in Microphone"));
    assert!(is_preferred_input_device_name("Zoom Mic"));
    assert!(is_preferred_input_device_name("USB MIC"));
}

#[test]
fn preferred_name_requires_microphone_context() {
    assert!(!is_preferred_input_device_name("USB Audio Device"));
}

use voquill::audio_devices::{
    cached_device_usable, candidate_try_order, device_candidates_for_host, device_matches_preferred,
    is_builtin_microphone_name, list_input_devices, name_has_low_quality_keyword, normalize_name, ordered_host_ids,
    sanitize_preferred_input, should_avoid_input_device, CandidateSource, DeviceProbe, HostDevices,
};

fn probe(name: Option<&str>, rate: Option<u32>) -> DeviceProbe {
    DeviceProbe { name: name.map(|s| s.to_string()), default_input_sample_rate: rate }
}

#[test]
fn low_quality_keywords_ignore_case() {
    assert!(name_has_low_quality_keyword("My AirPods"));
    assert!(name_has_low_quality_keyword("WH-1000 (Sony WH-1000XM4)"));
    assert!(name_has_low_quality_keyword("Hands-Free AG Audio"));
    assert!(!name_has_low_quality_keyword("Studio Condenser"));
}

#[test]
fn builtin_microphones_are_recognised() {
    assert!(is_builtin_microphone_name("MacBook Pro Microphone"));
    assert!(is_builtin_microphone_name("Internal Mic"));
    assert!(is_builtin_microphone_name("Built-in Audio Analog Stereo"));
    assert!(!is_builtin_microphone_name("Yeti Stereo Microphone"));
}

#[test]
fn names_are_normalized_for_matching() {
    assert_eq!(normalize_name("  Yeti Mic  ").into_iter().collect::<String>(), "yeti mic");
    assert!(device_matches_preferred(" Yeti MIC ", "yeti mic"));
    assert!(!device_matches_preferred("Yeti", "yeti mic"));
}

#[test]
fn devices_to_avoid() {
    assert!(should_avoid_input_device(Some("AirPods Pro"), Some("AirPods Pro"), None));
    assert!(!should_avoid_input_device(Some("AirPods Pro"), Some("Speakers"), Some(48000)));
    assert!(should_avoid_input_device(Some("USB Mic"), None, Some(16000)));
    assert!(!should_avoid_input_device(Some("USB Mic"), None, Some(44100)));
    assert!(!should_avoid_input_device(None, None, None));
}

#[test]
fn candidates_rank_and_skip_duplicates() {
    let default = probe(Some("Headset Microphone"), Some(16000));
    let devices = vec![
        probe(Some("headset microphone"), Some(16000)),
        probe(Some("MacBook Pro Microphone"), Some(48000)),
        probe(Some("Bluetooth Mic"), Some(48000)),
        probe(Some("Line In"), Some(48000)),
        probe(None, None),
    ];
    let cs = device_candidates_for_host(Some(&default), &devices, Some("Headset"), None);
    let summary: Vec<(String, u32, bool, bool)> = cs
        .iter()
        .map(|c| (c.normalized_name.clone(), c.priority, c.avoid_reason.is_some(), c.is_default))
        .collect();
    assert_eq!(
        summary,
        vec![
            ("headset microphone".to_string(), 300, true, true),
            ("macbook pro microphone".to_string(), 0, false, false),
            ("bluetooth mic".to_string(), 250, true, false),
            ("line in".to_string(), 100, false, false),
            ("<unknown>".to_string(), 100, false, false),
        ]
    );
    assert!(matches!(cs[1].source, CandidateSource::Listed(1)));
    let order = candidate_try_order(&cs);
    assert_eq!(order, vec![1, 3, 4, 2, 0]);
}

#[test]
fn preferred_device_is_tried_first() {
    let devices = vec![probe(Some("MacBook Pro Microphone"), Some(48000)), probe(Some("Yeti Stereo"), Some(48000))];
    let cs = device_candidates_for_host(None, &devices, None, Some(" YETI stereo "));
    assert!(cs[1].matches_preferred);
    assert_eq!(cs[1].priority, 0);
    assert_eq!(candidate_try_order(&cs), vec![1, 0]);
}

#[test]
fn device_list_merges_hosts_and_sorts() {
    let hosts = vec![
        HostDevices {
            default_device: Some(probe(Some("Zeta Mic"), Some(48000))),
            devices: vec![probe(Some("Alpha"), Some(48000)), probe(Some("zeta mic"), Some(48000))],
            default_output_name: None,
        },
        HostDevices {
            default_device: None,
            devices: vec![probe(Some("Beta Bluetooth"), Some(8000)), probe(Some("ALPHA"), Some(48000))],
            default_output_name: None,
        },
    ];
    let list = list_input_devices(&hosts);
    let summary: Vec<(String, bool, bool)> = list.iter().map(|d| (d.label.clone(), d.is_default, d.caution)).collect();
    assert_eq!(
        summary,
        vec![
            ("Zeta Mic".to_string(), true, false),
            ("ALPHA".to_string(), false, false),
            ("Beta Bluetooth".to_string(), false, true),
        ]
    );
}

#[test]
fn hosts_default_first() {
    assert_eq!(ordered_host_ids(2, &vec![0, 1, 2, 3]), vec![2, 0, 1, 3]);
    assert_eq!(ordered_host_ids(5, &vec![]), vec![5]);
}

#[test]
fn preferred_input_is_trimmed() {
    assert_eq!(sanitize_preferred_input(Some("  Yeti  ".to_string())), Some("Yeti".to_string()));
    assert_eq!(sanitize_preferred_input(Some("   ".to_string())), None);
    assert_eq!(sanitize_preferred_input(None), None);
}

#[test]
fn cached_device_follows_preference() {
    assert!(cached_device_usable("Yeti Stereo", None));
    assert!(cached_device_usable("Yeti Stereo", Some("yeti stereo")));
    assert!(!cached_device_usable("Yeti Stereo", Some("macbook")));
}
