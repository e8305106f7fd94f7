//! Decisions about the microphone and accessibility permissions.
use vstd::prelude::*;

verus! {

pub const AV_AUTHORIZATION_STATUS_NOT_DETERMINED: isize = 0;
pub const AV_AUTHORIZATION_STATUS_DENIED: isize = 2;
pub const AV_AUTHORIZATION_STATUS_AUTHORIZED: isize = 3;

#[derive(Debug, Clone, Copy, PartialEq, Eq, Structural)]
pub struct PermissionStatus {
    pub microphone_granted: bool,
    pub accessibility_granted: bool,
}

#[derive(Debug, Clone, Copy, PartialEq, Eq, Structural)]
pub enum MicrophonePermissionState {
    Authorized,
    NotDetermined,
    Denied,
    Unknown,
}

#[derive(Debug, Clone, Copy, PartialEq, Eq, Structural)]
pub enum MicrophonePermissionOutcome {
    Granted,
    Prompted,
    Denied,
}

/// The permission state for an `AVCaptureDevice` authorization status (none when the class
/// is unavailable): restricted and unknown codes count as denied.
pub fn microphone_permission_state(status: Option<isize>) -> (r: MicrophonePermissionState)
    ensures
        r == match status {
            Some(s) => if s == AV_AUTHORIZATION_STATUS_AUTHORIZED {
                MicrophonePermissionState::Authorized
            } else if s == AV_AUTHORIZATION_STATUS_NOT_DETERMINED {
                MicrophonePermissionState::NotDetermined
            } else {
                MicrophonePermissionState::Denied
            },
            None => MicrophonePermissionState::Unknown,
        },
{
    match status {
        Some(s) => if s == AV_AUTHORIZATION_STATUS_AUTHORIZED {
            MicrophonePermissionState::Authorized
        } else if s == AV_AUTHORIZATION_STATUS_NOT_DETERMINED {
            MicrophonePermissionState::NotDetermined
        } else {
            MicrophonePermissionState::Denied
        },
        None => MicrophonePermissionState::Unknown,
    }
}

/// The microphone may be used when access is authorized, or unknown (not blocked).
pub fn has_microphone_permission(state: MicrophonePermissionState) -> (r: bool)
    ensures
        r == (state == MicrophonePermissionState::Authorized || state
            == MicrophonePermissionState::Unknown),
{
    match state {
        MicrophonePermissionState::Authorized | MicrophonePermissionState::Unknown => true,
        _ => false,
    }
}

/// What to do before recording: the outcome, and whether the app must ask for access (only
/// when the user has not decided yet).
pub fn prepare_microphone_permission(state: MicrophonePermissionState) -> (r: (MicrophonePermissionOutcome, bool))
    ensures
        r == match state {
            MicrophonePermissionState::Authorized | MicrophonePermissionState::Unknown => (
                MicrophonePermissionOutcome::Granted,
                false,
            ),
            MicrophonePermissionState::NotDetermined => (
                MicrophonePermissionOutcome::Prompted,
                true,
            ),
            MicrophonePermissionState::Denied => (MicrophonePermissionOutcome::Denied, false),
        },
{
    match state {
        MicrophonePermissionState::Authorized | MicrophonePermissionState::Unknown => (
            MicrophonePermissionOutcome::Granted,
            false,
        ),
        MicrophonePermissionState::NotDetermined => (MicrophonePermissionOutcome::Prompted, true),
        MicrophonePermissionState::Denied => (MicrophonePermissionOutcome::Denied, false),
    }
}

/// The permissions at startup: the microphone as its state allows, and accessibility as
/// the system reported it (after asking, when the app asked).
pub fn request_startup_permissions(
    microphone: MicrophonePermissionState,
    accessibility_granted: bool,
) -> (r: PermissionStatus)
    ensures
        r.microphone_granted == (microphone == MicrophonePermissionState::Authorized || microphone
            == MicrophonePermissionState::Unknown),
        r.accessibility_granted == accessibility_granted,
{
    PermissionStatus {
        microphone_granted: has_microphone_permission(microphone),
        accessibility_granted,
    }
}

} // verus!
