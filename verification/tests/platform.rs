use patter::audio::{select_input_device, whole_frame_samples};
use patter::paste::{display_name, paste_method, should_restore_clipboard, PasteMethod};
use patter::permissions::{
    accessibility_trusted, get_status, input_monitoring_trusted, mic_status_from_code,
    microphone_authorized, microphone_step, open_accessibility_settings,
    open_input_monitoring_settings, request_accessibility_permission,
    request_input_monitoring_permission, settings_pane_needed, MicStatus, MicrophoneStep,
};

#[test]
fn ungated_platforms_report_keystrokes_and_hotkey_granted() {
    assert!(accessibility_trusted() && input_monitoring_trusted());
    let s = get_status(accessibility_trusted(), input_monitoring_trusted(), MicStatus::Granted);
    assert!(s.accessibility && s.input_monitoring && s.microphone);
    assert!(request_accessibility_permission());
    assert!(request_input_monitoring_permission());
    assert!(open_accessibility_settings().is_ok());
    assert!(open_input_monitoring_settings().is_ok());
}

#[test]
fn the_microphone_is_granted_only_when_the_system_says_so() {
    assert!(microphone_authorized(MicStatus::Granted));
    assert!(!microphone_authorized(MicStatus::Denied));
    assert!(!microphone_authorized(MicStatus::Restricted));
    assert!(!microphone_authorized(MicStatus::NotDetermined));
    let s = get_status(true, true, MicStatus::Denied);
    assert!(s.accessibility && s.input_monitoring && !s.microphone);
    assert!(mic_status_from_code(0) == MicStatus::NotDetermined);
    assert!(mic_status_from_code(1) == MicStatus::Restricted);
    assert!(mic_status_from_code(2) == MicStatus::Denied);
    assert!(mic_status_from_code(3) == MicStatus::Granted);
    assert!(mic_status_from_code(7) == MicStatus::Denied);
}

#[test]
fn permission_requests_route_by_status() {
    assert!(microphone_step(MicStatus::Granted) == MicrophoneStep::Granted);
    assert!(microphone_step(MicStatus::NotDetermined) == MicrophoneStep::Prompt);
    assert!(microphone_step(MicStatus::Restricted) == MicrophoneStep::OpenSettings);
    assert!(microphone_step(MicStatus::Denied) == MicrophoneStep::OpenSettings);
    assert!(settings_pane_needed(false));
    assert!(!settings_pane_needed(true));
}

#[test]
fn the_named_microphone_is_chosen_when_present() {
    let names = vec!["Built-in".to_string(), "USB".to_string(), "USB".to_string()];
    assert_eq!(select_input_device(&names, Some("USB")), Some(1));
    assert_eq!(select_input_device(&names, Some("Bluetooth")), None);
    assert_eq!(select_input_device(&names, None), None);
}

#[test]
fn drains_take_whole_frames() {
    assert_eq!(whole_frame_samples(7, 2), 6);
    assert_eq!(whole_frame_samples(7, 1), 7);
    assert_eq!(whole_frame_samples(7, 0), 7);
    assert_eq!(whole_frame_samples(1, 2), 0);
}

#[test]
fn text_is_typed_or_pasted_and_the_clipboard_restored_if_still_ours() {
    assert!(paste_method("type") == PasteMethod::Type);
    assert!(paste_method("paste") == PasteMethod::Clipboard);
    assert!(should_restore_clipboard(Some("hello"), "hello"));
    assert!(!should_restore_clipboard(Some("other"), "hello"));
    assert!(!should_restore_clipboard(None, "hello"));
    assert_eq!(display_name("notepad"), "Notepad");
    assert_eq!(display_name("ǆemo"), "Ǆemo");
    assert_eq!(display_name(""), "");
}

#[test]
fn sha256_digests_are_written_in_lowercase_hex() {
    assert_eq!(
        patter::digest::sha256_hex(b"abc"),
        "ba7816bf8f01cfea414140de5dae2223b00361a396177a9cb410ff61f20015ad"
    );
    assert_eq!(
        patter::digest::sha256_hex(b""),
        "e3b0c44298fc1c149afbf4c8996fb92427ae41e4649b934ca495991b7852b855"
    );
}

#[test]
fn settings_panes_have_their_addresses() {
    assert_eq!(patter::permissions::WINDOWS_MICROPHONE_PANE, "ms-settings:privacy-microphone");
    assert_eq!(patter::permissions::WINDOWS_NOTIFICATIONS_PANE, "ms-settings:notifications");
}
