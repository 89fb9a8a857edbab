use vstd::prelude::*;

use crate::text::{concat_strs, decimal_int, decimal_string};

verus! {

/// Where a system permission stands.
#[derive(Debug, Clone, Copy, PartialEq, Eq, Structural)]
pub enum PermissionState {
    Authorized,
    Denied,
    Restricted,
    NotDetermined,
}

/// The system permissions the app asks for.
#[derive(Debug, Clone, Copy, PartialEq, Eq, Structural)]
pub enum PermissionKind {
    Microphone,
    Accessibility,
    ScreenRecording,
}

/// A permission, where it stands, and whether asking for it showed the user something.
#[derive(Debug, Clone, Copy, PartialEq, Eq, Structural)]
pub struct PermissionStatus {
    pub kind: PermissionKind,
    pub state: PermissionState,
    pub prompt_shown: bool,
}

/// AVFoundation's `AVAuthorizationStatus` values.
pub const AUTH_STATUS_NOT_DETERMINED: i64 = 0;
pub const AUTH_STATUS_RESTRICTED: i64 = 1;
pub const AUTH_STATUS_DENIED: i64 = 2;
pub const AUTH_STATUS_AUTHORIZED: i64 = 3;

pub open spec fn state_of_authorization(status: i64) -> Option<PermissionState> {
    if status == AUTH_STATUS_AUTHORIZED {
        Some(PermissionState::Authorized)
    } else if status == AUTH_STATUS_DENIED {
        Some(PermissionState::Denied)
    } else if status == AUTH_STATUS_RESTRICTED {
        Some(PermissionState::Restricted)
    } else if status == AUTH_STATUS_NOT_DETERMINED {
        Some(PermissionState::NotDetermined)
    } else {
        None
    }
}

/// The error for an authorization status outside the four known ones.
pub open spec fn unknown_status_message(status: i64) -> Seq<char> {
    "Unknown authorization status: "@ + decimal_int(status as int)
}

/// The permission state of an AVFoundation authorization status.
pub fn permission_state_from_authorization(status: i64) -> (r: Result<PermissionState, String>)
    ensures
        match r {
            Ok(s) => state_of_authorization(status) == Some(s),
            Err(m) => state_of_authorization(status) is None && m@ == unknown_status_message(status),
        },
{
    if status == AUTH_STATUS_AUTHORIZED {
        Ok(PermissionState::Authorized)
    } else if status == AUTH_STATUS_DENIED {
        Ok(PermissionState::Denied)
    } else if status == AUTH_STATUS_RESTRICTED {
        Ok(PermissionState::Restricted)
    } else if status == AUTH_STATUS_NOT_DETERMINED {
        Ok(PermissionState::NotDetermined)
    } else {
        let digits = decimal_string(status);
        Err(concat_strs("Unknown authorization status: ", digits.as_str()))
    }
}

pub open spec fn screen_recording_state(authorized: bool, requested_before: bool) -> PermissionState {
    if authorized {
        PermissionState::Authorized
    } else if requested_before {
        PermissionState::Denied
    } else {
        PermissionState::NotDetermined
    }
}

/// Screen recording access: granted, refused after having been asked, or never asked.
pub fn screen_recording_state_from_access(authorized: bool, requested_before: bool) -> (r: PermissionState)
    ensures
        r == screen_recording_state(authorized, requested_before),
{
    if authorized {
        PermissionState::Authorized
    } else if requested_before {
        PermissionState::Denied
    } else {
        PermissionState::NotDetermined
    }
}

/// The screen recording permission status.
pub fn screen_recording_status(authorized: bool, prompt_shown: bool, requested_before: bool) -> (r: PermissionStatus)
    ensures
        r == (PermissionStatus {
            kind: PermissionKind::ScreenRecording,
            state: screen_recording_state(authorized, requested_before),
            prompt_shown,
        }),
{
    PermissionStatus {
        kind: PermissionKind::ScreenRecording,
        state: screen_recording_state_from_access(authorized, requested_before),
        prompt_shown,
    }
}

pub open spec fn screen_recording_prompt(initial_authorized: bool, requested_before: bool, opened_settings: bool) -> bool {
    if initial_authorized {
        false
    } else if requested_before {
        opened_settings
    } else {
        true
    }
}

/// Whether a screen recording request showed the user something: the system prompt on the
/// first request, or the System Settings pane after a prior refusal.
pub fn screen_recording_prompt_result(initial_authorized: bool, requested_before: bool, opened_settings: bool) -> (r: bool)
    ensures
        r == screen_recording_prompt(initial_authorized, requested_before, opened_settings),
{
    if initial_authorized {
        false
    } else if requested_before {
        opened_settings
    } else {
        true
    }
}

/// What a screen recording request does first.
#[derive(Debug, Clone, Copy, PartialEq, Eq, Structural)]
pub enum ScreenRecordingAction {
    /// Access is already granted: nothing to do.
    Nothing,
    /// Access was refused before: open the System Settings privacy pane.
    OpenSettings,
    /// Access was never asked for: remember the request and show the system prompt.
    MarkAndRequest,
}

/// The first step of a screen recording request.
pub fn screen_recording_request_action(initial_authorized: bool, requested_before: bool) -> (r: ScreenRecordingAction)
    ensures
        r == (if initial_authorized {
            ScreenRecordingAction::Nothing
        } else if requested_before {
            ScreenRecordingAction::OpenSettings
        } else {
            ScreenRecordingAction::MarkAndRequest
        }),
{
    if initial_authorized {
        ScreenRecordingAction::Nothing
    } else if requested_before {
        ScreenRecordingAction::OpenSettings
    } else {
        ScreenRecordingAction::MarkAndRequest
    }
}

/// The status a screen recording request answers with, from the access before and after
/// the request, whether it had been asked for before, and whether the settings pane opened.
pub fn screen_recording_request_status(
    initial_authorized: bool,
    requested_before: bool,
    opened_settings: bool,
    final_authorized: bool,
) -> (r: PermissionStatus)
    ensures
        r.kind == PermissionKind::ScreenRecording,
        r.prompt_shown == screen_recording_prompt(initial_authorized, requested_before, opened_settings),
        r.state == screen_recording_state(final_authorized, requested_before || r.prompt_shown),
{
    let prompt_shown = screen_recording_prompt_result(initial_authorized, requested_before, opened_settings);
    screen_recording_status(final_authorized, prompt_shown, requested_before || prompt_shown)
}

/// The status a screen recording check answers with.
pub fn screen_recording_check_status(authorized: bool, requested_before: bool) -> (r: PermissionStatus)
    ensures
        r == (PermissionStatus {
            kind: PermissionKind::ScreenRecording,
            state: screen_recording_state(authorized, requested_before),
            prompt_shown: false,
        }),
{
    screen_recording_status(authorized, false, requested_before)
}

/// Accessibility trust: granted, or not yet granted.
pub fn accessibility_state_from_bool(trusted: bool) -> (r: PermissionState)
    ensures
        r == (if trusted {
            PermissionState::Authorized
        } else {
            PermissionState::NotDetermined
        }),
{
    if trusted {
        PermissionState::Authorized
    } else {
        PermissionState::NotDetermined
    }
}

/// The status of an accessibility check (`prompt_shown` false) or request (`prompt_shown`
/// when the process was not trusted before the request).
pub fn accessibility_status(trusted: bool, prompt_shown: bool) -> (r: PermissionStatus)
    ensures
        r.kind == PermissionKind::Accessibility,
        r.state == (if trusted {
            PermissionState::Authorized
        } else {
            PermissionState::NotDetermined
        }),
        r.prompt_shown == prompt_shown,
{
    PermissionStatus {
        kind: PermissionKind::Accessibility,
        state: accessibility_state_from_bool(trusted),
        prompt_shown,
    }
}

/// The status of a microphone check: the state of the authorization status, no prompt.
pub fn microphone_check_status(status: i64) -> (r: Result<PermissionStatus, String>)
    ensures
        match r {
            Ok(st) => state_of_authorization(status) == Some(st.state) && st.kind == PermissionKind::Microphone
                && !st.prompt_shown,
            Err(m) => state_of_authorization(status) is None && m@ == unknown_status_message(status),
        },
{
    let state = permission_state_from_authorization(status)?;
    Ok(PermissionStatus { kind: PermissionKind::Microphone, state, prompt_shown: false })
}

/// Whether a microphone request showed the user something: the system prompt when the
/// status was undetermined, or the System Settings pane after a refusal.
pub open spec fn microphone_prompt(initial_status: i64, opened_settings: bool) -> bool {
    initial_status == AUTH_STATUS_NOT_DETERMINED || (initial_status == AUTH_STATUS_DENIED && opened_settings)
}

/// The status a microphone request answers with, from the authorization status before and
/// after the request and whether the settings pane opened.
pub fn microphone_request_status(initial_status: i64, opened_settings: bool, final_status: i64) -> (r: Result<
    PermissionStatus,
    String,
>)
    ensures
        match r {
            Ok(st) => state_of_authorization(final_status) == Some(st.state) && st.kind
                == PermissionKind::Microphone && st.prompt_shown == microphone_prompt(initial_status, opened_settings),
            Err(m) => state_of_authorization(final_status) is None && m@ == unknown_status_message(final_status),
        },
{
    let prompt_shown = initial_status == AUTH_STATUS_NOT_DETERMINED;
    let mut prompt_result = prompt_shown;
    if initial_status == AUTH_STATUS_DENIED && opened_settings {
        prompt_result = true;
    }
    let state = permission_state_from_authorization(final_status)?;
    Ok(PermissionStatus { kind: PermissionKind::Microphone, state, prompt_shown: prompt_result })
}

/// A permission reported as granted, with no prompt.
pub fn authorized_status(kind: PermissionKind) -> (r: PermissionStatus)
    ensures
        r == (PermissionStatus { kind, state: PermissionState::Authorized, prompt_shown: false }),
{
    PermissionStatus { kind, state: PermissionState::Authorized, prompt_shown: false }
}

} // verus!
