//! The permissions Patter needs (Accessibility for keystrokes, Input
//! Monitoring for the global hotkey, Microphone for recording), how a request
//! for one proceeds, and where their settings panes are. Keystrokes and the
//! hotkey are gated on macOS only; elsewhere they report granted. The
//! microphone is judged from the operating system's answer everywhere.
use vstd::prelude::*;

verus! {

/// Whether each gated permission is granted.
#[derive(Clone, Copy)]
pub struct PermissionStatus {
    pub accessibility: bool,
    pub input_monitoring: bool,
    pub microphone: bool,
}

/// Keystroke synthesis needs no grant here.
pub fn accessibility_trusted() -> (r: bool)
    ensures
        r,
{
    true
}

/// Global hotkey capture needs no grant here.
pub fn input_monitoring_trusted() -> (r: bool)
    ensures
        r,
{
    true
}

/// What the operating system reports about this app's microphone access.
#[derive(Clone, Copy, PartialEq, Eq, Structural)]
pub enum MicStatus {
    /// The user was never asked.
    NotDetermined,
    /// A policy forbids access; the user cannot grant it.
    Restricted,
    /// The user refused access.
    Denied,
    /// The user allowed access.
    Granted,
}

/// The status a macOS `AVAuthorizationStatus` code stands for (0 not
/// determined, 1 restricted, 2 denied, 3 authorized); any other code is
/// treated as a refusal.
pub fn mic_status_from_code(code: i64) -> (r: MicStatus)
    ensures
        code == 0 ==> r == MicStatus::NotDetermined,
        code == 1 ==> r == MicStatus::Restricted,
        code == 3 ==> r == MicStatus::Granted,
        code != 0 && code != 1 && code != 3 ==> r == MicStatus::Denied,
{
    if code == 0 {
        MicStatus::NotDetermined
    } else if code == 1 {
        MicStatus::Restricted
    } else if code == 3 {
        MicStatus::Granted
    } else {
        MicStatus::Denied
    }
}

/// Whether the app may record, from what the operating system reports.
pub fn microphone_authorized(os_status: MicStatus) -> (r: bool)
    ensures
        r == (os_status == MicStatus::Granted),
{
    os_status == MicStatus::Granted
}

/// All three permissions: the two keystroke/hotkey grants as the platform
/// reports them, and the microphone from its operating-system status.
pub fn get_status(accessibility: bool, input_monitoring: bool, microphone: MicStatus) -> (s: PermissionStatus)
    ensures
        s.accessibility == accessibility,
        s.input_monitoring == input_monitoring,
        s.microphone == (microphone == MicStatus::Granted),
{
    PermissionStatus {
        accessibility,
        input_monitoring,
        microphone: microphone_authorized(microphone),
    }
}

/// Asking for Accessibility where it is not gated: granted.
pub fn request_accessibility_permission() -> (r: bool)
    ensures
        r,
{
    true
}

/// Asking for Input Monitoring where it is not gated: granted.
pub fn request_input_monitoring_permission() -> (r: bool)
    ensures
        r,
{
    true
}

/// Opening the Accessibility pane where there is none: nothing to do.
pub fn open_accessibility_settings() -> (r: Result<(), String>)
    ensures
        r is Ok,
{
    Ok(())
}

/// Opening the Input Monitoring pane where there is none: nothing to do.
pub fn open_input_monitoring_settings() -> (r: Result<(), String>)
    ensures
        r is Ok,
{
    Ok(())
}

/// What asking for a gated permission does once its current grant is known:
/// the answer is the grant, and a missing grant also sends the user to the
/// settings pane (the system shows no prompt for these).
pub fn settings_pane_needed(trusted: bool) -> (open_pane: bool)
    ensures
        open_pane == !trusted,
{
    !trusted
}

/// The next step of a microphone request.
#[derive(PartialEq, Eq, Structural)]
pub enum MicrophoneStep {
    /// Already authorized.
    Granted,
    /// Never asked: show the system prompt and wait for the answer.
    Prompt,
    /// Denied or restricted: only the settings pane can change it.
    OpenSettings,
}

/// Where a microphone request goes from the current status.
pub fn microphone_step(status: MicStatus) -> (r: MicrophoneStep)
    ensures
        status == MicStatus::Granted ==> r == MicrophoneStep::Granted,
        status == MicStatus::NotDetermined ==> r == MicrophoneStep::Prompt,
        (status == MicStatus::Denied || status == MicStatus::Restricted) ==> r == MicrophoneStep::OpenSettings,
{
    match status {
        MicStatus::Granted => MicrophoneStep::Granted,
        MicStatus::NotDetermined => MicrophoneStep::Prompt,
        _ => MicrophoneStep::OpenSettings,
    }
}

/// The Accessibility pane of System Settings.
pub const ACCESSIBILITY_PANE: &'static str = "x-apple.systempreferences:com.apple.preference.security?Privacy_Accessibility";

/// The Input Monitoring pane of System Settings.
pub const INPUT_MONITORING_PANE: &'static str = "x-apple.systempreferences:com.apple.preference.security?Privacy_ListenEvent";

/// The Microphone pane of System Settings.
pub const MICROPHONE_PANE: &'static str = "x-apple.systempreferences:com.apple.preference.security?Privacy_Microphone";

/// The Notifications pane of System Settings.
pub const NOTIFICATIONS_PANE: &'static str = "x-apple.systempreferences:com.apple.preference.notifications";

/// The Microphone page of Windows' privacy settings.
pub const WINDOWS_MICROPHONE_PANE: &'static str = "ms-settings:privacy-microphone";

/// The Notifications page of Windows' settings.
pub const WINDOWS_NOTIFICATIONS_PANE: &'static str = "ms-settings:notifications";

} // verus!
