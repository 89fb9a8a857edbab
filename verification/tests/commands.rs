use voquill::commands::{
    audio_snapshot_path, check_audio_to_store, check_usable_samples, clear_local_data_statements,
    current_timestamp_millis, export_file_name, export_includes_raw, finish_transcription, sanitize_option_text,
    stale_audio_entries, start_recording_outcome, stop_recording_error, timestamp_from_millis, tone_created_at,
    transcription_page, transcription_request_from_options, tray_title_text, StartRecordingArgs,
    StartRecordingResponse, TranscriptionDevice, TranscriptionDeviceSelectionDto, TranscriptionOptionsDto,
    TranscriptionRequest,
};

fn selection(cpu: bool, id: Option<u32>, name: Option<&str>) -> TranscriptionDeviceSelectionDto {
    TranscriptionDeviceSelectionDto { cpu, device_id: id, device_name: name.map(|s| s.to_string()) }
}

#[test]
fn device_selection_into_request() {
    let r = selection(true, Some(1), None).into_request();
    assert!(matches!(r.device, Some(TranscriptionDevice::Cpu)));
    let r = selection(false, Some(1), Some("RTX")).into_request();
    match r.device {
        Some(TranscriptionDevice::Gpu(g)) => {
            assert_eq!(g.id, Some(1));
            assert_eq!(g.name, Some("RTX".to_string()));
        }
        _ => panic!("expected a GPU"),
    }
    let r = selection(false, None, None).into_request();
    assert!(r.device.is_none());
    assert!(r.model_path.is_none() && r.initial_prompt.is_none() && r.language.is_none());
}

#[test]
fn default_request_and_args() {
    let r = TranscriptionRequest::default();
    assert!(r.device.is_none() && r.model_path.is_none() && r.initial_prompt.is_none() && r.language.is_none());
    assert!(StartRecordingArgs::default().preferred_microphone.is_none());
}

#[test]
fn options_are_sanitized() {
    assert_eq!(sanitize_option_text(" \0 hello\0 "), Some("hello".to_string()));
    assert_eq!(sanitize_option_text("\0 \0"), None);
    let (req, size) = transcription_request_from_options(Some(TranscriptionOptionsDto {
        device: Some(selection(false, Some(0), None)),
        model_size: Some("base".to_string()),
        initial_prompt: Some("  Names: Ada\0 ".to_string()),
        language: Some("   ".to_string()),
    }));
    assert!(matches!(req.device, Some(TranscriptionDevice::Gpu(_))));
    assert_eq!(req.initial_prompt, Some("Names: Ada".to_string()));
    assert_eq!(req.language, None);
    assert_eq!(size, Some("base".to_string()));
    let (req, size) = transcription_request_from_options(None);
    assert!(req.device.is_none() && req.initial_prompt.is_none());
    assert!(size.is_none());
}

#[test]
fn start_recording_outcomes() {
    assert_eq!(start_recording_outcome(Ok(()), Some(48000)), Ok(StartRecordingResponse { sample_rate: 48000 }));
    assert_eq!(start_recording_outcome(Ok(()), None), Ok(StartRecordingResponse { sample_rate: 16000 }));
    assert_eq!(start_recording_outcome(Err(("busy".to_string(), true)), None), Ok(StartRecordingResponse { sample_rate: 16000 }));
    assert_eq!(start_recording_outcome(Err(("no device".to_string(), false)), Some(1)), Err("no device".to_string()));
}

#[test]
fn stop_recording_errors() {
    assert_eq!(stop_recording_error(true, "x".to_string()), "No recording is active. Please start a recording first.");
    assert_eq!(stop_recording_error(false, "stream died".to_string()), "stream died");
}

#[test]
fn audio_checks() {
    assert_eq!(check_audio_to_store(0, 0), Err("Audio sample rate must be greater than zero".to_string()));
    assert_eq!(check_audio_to_store(16000, 0), Err("No usable audio samples provided".to_string()));
    assert_eq!(check_audio_to_store(16000, 3), Ok(()));
    assert_eq!(check_usable_samples(0), Err("No usable audio samples provided".to_string()));
    assert_eq!(check_usable_samples(1), Ok(()));
}

#[test]
fn transcripts_are_trimmed() {
    assert_eq!(finish_transcription(Ok("  hello \n".to_string())), Ok("hello".to_string()));
    assert_eq!(finish_transcription(Err("boom".to_string())), Err("boom".to_string()));
}

#[test]
fn transcription_pages() {
    assert_eq!(transcription_page(None, None), (20, 0));
    assert_eq!(transcription_page(Some(5), Some(40)), (5, 40));
}

#[test]
fn only_the_newest_twenty_keep_audio() {
    let rows: Vec<(String, String)> = (0..25).map(|i| (format!("id{i}"), format!("/a/{i}.wav"))).collect();
    let stale = stale_audio_entries(rows.clone());
    assert_eq!(stale, rows[20..].to_vec());
    assert!(stale_audio_entries(rows[..20].to_vec()).is_empty());
    assert!(stale_audio_entries(vec![]).is_empty());
}

#[test]
fn audio_snapshot_paths() {
    assert_eq!(audio_snapshot_path(None, true), Err("No audio snapshot available for this transcription".to_string()));
    assert_eq!(audio_snapshot_path(Some("/x".to_string()), false), Err("Audio snapshot path is outside the managed directory".to_string()));
    assert_eq!(audio_snapshot_path(Some("/x".to_string()), true), Ok("/x".to_string()));
}

#[test]
fn export_names() {
    assert_eq!(export_file_name("abc"), "voquill-abc.zip");
    assert_eq!(export_file_name("12345678"), "voquill-12345678.zip");
    assert_eq!(export_file_name("123456789abc"), "voquill-12345678.zip");
    assert_eq!(export_file_name("12345678é"), "voquill-12345678.zip");
    assert_eq!(export_file_name("ab€cdefgh"), "voquill-ab€cde.zip");
    assert!(export_includes_raw(&Some("raw".to_string())));
    assert!(!export_includes_raw(&Some(String::new())));
    assert!(!export_includes_raw(&None));
}

#[test]
fn tray_titles() {
    assert_eq!(tray_title_text(&Some("3".to_string())), "3");
    assert_eq!(tray_title_text(&Some(String::new())), "");
    assert_eq!(tray_title_text(&None), "");
}

#[test]
fn clearing_local_data() {
    assert_eq!(
        clear_local_data_statements(),
        vec![
            "DELETE FROM user_profiles",
            "DELETE FROM transcriptions",
            "DELETE FROM terms",
            "DELETE FROM hotkeys",
            "DELETE FROM api_keys",
            "DELETE FROM user_preferences",
        ]
    );
}

#[test]
fn timestamps_saturate() {
    assert_eq!(timestamp_from_millis(1_700_000_000_000), 1_700_000_000_000);
    assert_eq!(timestamp_from_millis(u128::MAX), i64::MAX);
    assert_eq!(current_timestamp_millis(Ok(5)), Ok(5));
    assert_eq!(current_timestamp_millis(Err("clock".to_string())), Err("clock".to_string()));
}

#[test]
fn tone_creation_times() {
    assert_eq!(tone_created_at(Some(10), 20), Some(10));
    assert_eq!(tone_created_at(None, 20), Some(20));
    assert_eq!(tone_created_at(None, 0), None);
    assert_eq!(tone_created_at(None, -5), None);
}
