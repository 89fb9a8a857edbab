use voquill::db::{audio_snapshot_from_row, parse_warnings, serialize_warnings};
use voquill::migrations::migrations;

#[test]
fn audio_snapshots_from_rows() {
    let s = audio_snapshot_from_row(Some("/a.wav".to_string()), Some(1500)).unwrap();
    assert_eq!((s.file_path.as_str(), s.duration_ms), ("/a.wav", 1500));
    let s = audio_snapshot_from_row(Some("/b.wav".to_string()), None).unwrap();
    assert_eq!(s.duration_ms, 0);
    assert!(audio_snapshot_from_row(None, Some(3)).is_none());
}

#[test]
fn warnings_round_trip_through_json() {
    let w = Some(vec!["low volume".to_string(), "say \"hi\"\n".to_string()]);
    let json = serialize_warnings(&w).unwrap();
    assert_eq!(json, "[\"low volume\",\"say \\\"hi\\\"\\n\"]");
    assert_eq!(parse_warnings(Some(json)), w);
    assert_eq!(serialize_warnings(&Some(vec![])), Some("[]".to_string()));
    assert_eq!(serialize_warnings(&None), None);
    assert_eq!(parse_warnings(Some(" [ \"a\" , \"b\" ] ".to_string())), Some(vec!["a".to_string(), "b".to_string()]));
    assert_eq!(parse_warnings(Some("{\"a\":1}".to_string())), None);
    assert_eq!(parse_warnings(Some("[1]".to_string())), None);
    assert_eq!(parse_warnings(None), None);
}

#[test]
fn migration_history_in_order() {
    let m = migrations();
    assert_eq!(m.len(), 67);
    for (i, step) in m.iter().enumerate() {
        assert_eq!(step.version, i as i64 + 1);
    }
    assert_eq!((m[0].description, m[0].sql_file), ("create_users_table", "000_schema.sql"));
    assert_eq!((m[22].description, m[22].sql_file), ("add_app_target_icon_path", "023_app_target_icon_path.sql"));
    assert_eq!(m[66].description, "add_transcription_contract_fields");
}

#[test]
fn warnings_with_escapes_read_back() {
    let w = Some(vec!["say \"hi\"".to_string(), "back\\slash\nnew\tline\u{1}".to_string(), "naïve ✓".to_string(), String::new()]);
    let json = serialize_warnings(&w).unwrap();
    assert_eq!(parse_warnings(Some(json)), w);
}
