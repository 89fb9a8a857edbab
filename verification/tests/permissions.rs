use voquill::permissions::{screen_recording_prompt_result, screen_recording_status, PermissionKind, PermissionState};

#[test]
fn screen_recording_status_uses_screen_recording_kind() {
    let status = screen_recording_status(true, false, false);

    assert_eq!(status.kind, PermissionKind::ScreenRecording);
    assert_eq!(status.state, PermissionState::Authorized);
    assert!(!status.prompt_shown);
}

#[test]
fn screen_recording_status_without_prior_request_is_not_determined() {
    let status = screen_recording_status(false, false, false);

    assert_eq!(status.kind, PermissionKind::ScreenRecording);
    assert_eq!(status.state, PermissionState::NotDetermined);
    assert!(!status.prompt_shown);
}

#[test]
fn screen_recording_status_after_prior_request_without_access_is_denied() {
    let status = screen_recording_status(false, false, true);

    assert_eq!(status.kind, PermissionKind::ScreenRecording);
    assert_eq!(status.state, PermissionState::Denied);
    assert!(!status.prompt_shown);
}

#[test]
fn screen_recording_status_after_prompt_without_access_is_denied() {
    let status = screen_recording_status(false, true, true);

    assert_eq!(status.kind, PermissionKind::ScreenRecording);
    assert_eq!(status.state, PermissionState::Denied);
    assert!(status.prompt_shown);
}

#[test]
fn screen_recording_prompt_result_is_true_for_first_request() {
    assert!(screen_recording_prompt_result(false, false, false));
}

#[test]
fn screen_recording_prompt_result_matches_settings_redirect_for_prior_denial() {
    assert!(screen_recording_prompt_result(false, true, true));
    assert!(!screen_recording_prompt_result(false, true, false));
}

use voquill::permissions::{
    accessibility_state_from_bool, accessibility_status, authorized_status, microphone_check_status,
    microphone_request_status, permission_state_from_authorization, screen_recording_check_status,
    screen_recording_request_action, screen_recording_request_status, screen_recording_state_from_access,
    ScreenRecordingAction,
};
use voquill::platform::{
    check_accessibility_permission, check_microphone_permission, check_screen_recording_permission,
    get_hotkey_strategy, request_accessibility_permission, request_microphone_permission,
    request_screen_recording_permission, supports_app_detection, supports_paste_keybinds, PasteKeybindSupport,
};

#[test]
fn authorization_statuses_map_to_states() {
    assert_eq!(permission_state_from_authorization(0), Ok(PermissionState::NotDetermined));
    assert_eq!(permission_state_from_authorization(1), Ok(PermissionState::Restricted));
    assert_eq!(permission_state_from_authorization(2), Ok(PermissionState::Denied));
    assert_eq!(permission_state_from_authorization(3), Ok(PermissionState::Authorized));
    assert_eq!(permission_state_from_authorization(7), Err("Unknown authorization status: 7".to_string()));
    assert_eq!(permission_state_from_authorization(-12), Err("Unknown authorization status: -12".to_string()));
}

#[test]
fn screen_recording_states() {
    assert_eq!(screen_recording_state_from_access(true, true), PermissionState::Authorized);
    assert_eq!(screen_recording_state_from_access(false, true), PermissionState::Denied);
    assert_eq!(screen_recording_state_from_access(false, false), PermissionState::NotDetermined);
    assert_eq!(screen_recording_request_action(true, false), ScreenRecordingAction::Nothing);
    assert_eq!(screen_recording_request_action(false, true), ScreenRecordingAction::OpenSettings);
    assert_eq!(screen_recording_request_action(false, false), ScreenRecordingAction::MarkAndRequest);
    assert!(!screen_recording_prompt_result(true, false, false));
}

#[test]
fn screen_recording_request_reports_the_prompt() {
    let first = screen_recording_request_status(false, false, false, false);
    assert_eq!(first.kind, PermissionKind::ScreenRecording);
    assert!(first.prompt_shown);
    assert_eq!(first.state, PermissionState::Denied);
    let granted = screen_recording_request_status(true, true, false, true);
    assert!(!granted.prompt_shown);
    assert_eq!(granted.state, PermissionState::Authorized);
    let check = screen_recording_check_status(false, false);
    assert_eq!(check.state, PermissionState::NotDetermined);
    assert!(!check.prompt_shown);
}

#[test]
fn accessibility_statuses() {
    assert_eq!(accessibility_state_from_bool(true), PermissionState::Authorized);
    assert_eq!(accessibility_state_from_bool(false), PermissionState::NotDetermined);
    let st = accessibility_status(false, true);
    assert_eq!(st.kind, PermissionKind::Accessibility);
    assert_eq!(st.state, PermissionState::NotDetermined);
    assert!(st.prompt_shown);
}

#[test]
fn microphone_statuses() {
    let st = microphone_check_status(3).unwrap();
    assert_eq!((st.kind, st.state, st.prompt_shown), (PermissionKind::Microphone, PermissionState::Authorized, false));
    assert_eq!(microphone_check_status(9).err(), Some("Unknown authorization status: 9".to_string()));
    let asked = microphone_request_status(0, false, 3).unwrap();
    assert!(asked.prompt_shown);
    assert_eq!(asked.state, PermissionState::Authorized);
    let settings = microphone_request_status(2, true, 2).unwrap();
    assert!(settings.prompt_shown);
    assert_eq!(settings.state, PermissionState::Denied);
    let quiet = microphone_request_status(2, false, 2).unwrap();
    assert!(!quiet.prompt_shown);
    assert!(microphone_request_status(0, false, 4).is_err());
}

#[test]
fn authorized_statuses_on_platforms_without_prompts() {
    assert_eq!(authorized_status(PermissionKind::Microphone).state, PermissionState::Authorized);
    for st in [
        check_microphone_permission(),
        request_microphone_permission(),
        check_accessibility_permission(),
        request_accessibility_permission(),
        check_screen_recording_permission(),
        request_screen_recording_permission(),
    ] {
        let st = st.unwrap();
        assert_eq!(st.state, PermissionState::Authorized);
        assert!(!st.prompt_shown);
    }
    assert_eq!(check_screen_recording_permission().unwrap().kind, PermissionKind::ScreenRecording);
}

#[test]
fn platform_capabilities() {
    assert_eq!(get_hotkey_strategy(), "listener");
    assert!(supports_app_detection());
    assert_eq!(supports_paste_keybinds(), PasteKeybindSupport::Disabled);
}
