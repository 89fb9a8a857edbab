use vstd::prelude::*;

use crate::permissions::{authorized_status, PermissionKind, PermissionState, PermissionStatus};

verus! {

/// How paste keybinds can be configured on a platform.
#[derive(Debug, Clone, Copy, PartialEq, Eq, Structural)]
pub enum PasteKeybindSupport {
    Disabled,
}

/// macOS listens for hotkeys itself.
pub fn get_hotkey_strategy() -> (r: &'static str)
    ensures
        r@ == "listener"@,
{
    "listener"
}

/// macOS can tell which application is in front.
pub fn supports_app_detection() -> (r: bool)
    ensures
        r,
{
    true
}

/// macOS offers no paste keybind setting.
pub fn supports_paste_keybinds() -> (r: PasteKeybindSupport)
    ensures
        r == PasteKeybindSupport::Disabled,
{
    PasteKeybindSupport::Disabled
}

/// Windows needs no microphone grant from the app.
pub fn check_microphone_permission() -> (r: Result<PermissionStatus, String>)
    ensures
        r matches Ok(s) && s == (PermissionStatus {
            kind: PermissionKind::Microphone,
            state: PermissionState::Authorized,
            prompt_shown: false,
        }),
{
    Ok(authorized_status(PermissionKind::Microphone))
}

/// A Windows microphone request is a check.
pub fn request_microphone_permission() -> (r: Result<PermissionStatus, String>)
    ensures
        r matches Ok(s) && s == (PermissionStatus {
            kind: PermissionKind::Microphone,
            state: PermissionState::Authorized,
            prompt_shown: false,
        }),
{
    check_microphone_permission()
}

/// Windows needs no accessibility grant.
pub fn check_accessibility_permission() -> (r: Result<PermissionStatus, String>)
    ensures
        r matches Ok(s) && s == (PermissionStatus {
            kind: PermissionKind::Accessibility,
            state: PermissionState::Authorized,
            prompt_shown: false,
        }),
{
    Ok(authorized_status(PermissionKind::Accessibility))
}

/// A Windows accessibility request is a check.
pub fn request_accessibility_permission() -> (r: Result<PermissionStatus, String>)
    ensures
        r matches Ok(s) && s == (PermissionStatus {
            kind: PermissionKind::Accessibility,
            state: PermissionState::Authorized,
            prompt_shown: false,
        }),
{
    check_accessibility_permission()
}

/// Windows needs no screen recording grant.
pub fn check_screen_recording_permission() -> (r: Result<PermissionStatus, String>)
    ensures
        r matches Ok(s) && s == (PermissionStatus {
            kind: PermissionKind::ScreenRecording,
            state: PermissionState::Authorized,
            prompt_shown: false,
        }),
{
    Ok(authorized_status(PermissionKind::ScreenRecording))
}

/// A Windows screen recording request is a check.
pub fn request_screen_recording_permission() -> (r: Result<PermissionStatus, String>)
    ensures
        r matches Ok(s) && s == (PermissionStatus {
            kind: PermissionKind::ScreenRecording,
            state: PermissionState::Authorized,
            prompt_shown: false,
        }),
{
    check_screen_recording_permission()
}

} // verus!
