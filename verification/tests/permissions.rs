use screamer::permissions::{
    has_microphone_permission, microphone_permission_state, prepare_microphone_permission,
    request_startup_permissions, MicrophonePermissionOutcome, MicrophonePermissionState,
};

#[test]
fn authorization_codes_map_to_states() {
    assert_eq!(microphone_permission_state(Some(3)), MicrophonePermissionState::Authorized);
    assert_eq!(microphone_permission_state(Some(0)), MicrophonePermissionState::NotDetermined);
    assert_eq!(microphone_permission_state(Some(2)), MicrophonePermissionState::Denied);
    assert_eq!(microphone_permission_state(Some(1)), MicrophonePermissionState::Denied);
    assert_eq!(microphone_permission_state(None), MicrophonePermissionState::Unknown);
}

#[test]
fn unknown_access_does_not_block_recording() {
    assert!(has_microphone_permission(MicrophonePermissionState::Authorized));
    assert!(has_microphone_permission(MicrophonePermissionState::Unknown));
    assert!(!has_microphone_permission(MicrophonePermissionState::Denied));
    assert!(!has_microphone_permission(MicrophonePermissionState::NotDetermined));
}

#[test]
fn only_an_undecided_user_is_asked() {
    assert_eq!(
        prepare_microphone_permission(MicrophonePermissionState::NotDetermined),
        (MicrophonePermissionOutcome::Prompted, true)
    );
    assert_eq!(
        prepare_microphone_permission(MicrophonePermissionState::Denied),
        (MicrophonePermissionOutcome::Denied, false)
    );
    assert_eq!(
        prepare_microphone_permission(MicrophonePermissionState::Unknown),
        (MicrophonePermissionOutcome::Granted, false)
    );
    let status = request_startup_permissions(MicrophonePermissionState::Denied, true);
    assert!(!status.microphone_granted);
    assert!(status.accessibility_granted);
}
