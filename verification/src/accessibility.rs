//! Asking for the Accessibility permission.
use vstd::prelude::*;

verus! {

/// Deep links to the Accessibility list in the system's settings, in the order
/// in which they are tried.
pub const SETTINGS_URLS: [&'static str; 2] = [
    "x-apple.systempreferences:com.apple.preference.security?Privacy_Accessibility",
    "x-apple.systempreferences:com.apple.settings.PrivacySecurity.extension?Privacy_Accessibility",
];

/// What comes next in asking for the permission.
#[derive(Debug, Clone, Copy, PartialEq, Eq, Structural)]
pub enum TrustStep {
    /// Show the system's prompt.
    Prompt,
    /// Open the settings; the permission is missing.
    OpenSettings,
    /// The permission is there.
    Trusted,
}

/// Asks for the permission: the prompt is shown where it is missing, and the
/// settings are opened where the prompt did not bring it.
pub fn ensure_trusted_prompting(trusted: bool, prompted: Option<bool>) -> (r: TrustStep)
    ensures
        r == (if trusted {
            TrustStep::Trusted
        } else {
            match prompted {
                None => TrustStep::Prompt,
                Some(true) => TrustStep::Trusted,
                Some(false) => TrustStep::OpenSettings,
            }
        }),
{
    if trusted {
        return TrustStep::Trusted;
    }
    match prompted {
        None => TrustStep::Prompt,
        Some(granted) => {
            if granted {
                TrustStep::Trusted
            } else {
                TrustStep::OpenSettings
            }
        },
    }
}

/// What comes next in opening the settings.
#[derive(Debug, Clone, Copy)]
pub enum SettingsStep {
    /// Open the link with this number in [`SETTINGS_URLS`].
    Open(usize),
    /// The settings are open.
    Opened,
    /// No link worked.
    GaveUp,
}

/// Opens the settings: one link after the other until one works. `tried` is
/// the number of links tried, `worked` whether the last of them did.
pub fn open_accessibility_settings(tried: usize, worked: bool) -> (r: SettingsStep)
    ensures
        r == (if tried > 0 && worked {
            SettingsStep::Opened
        } else if tried < SETTINGS_URLS@.len() {
            SettingsStep::Open(tried)
        } else {
            SettingsStep::GaveUp
        }),
{
    if tried > 0 && worked {
        SettingsStep::Opened
    } else if tried < SETTINGS_URLS.len() {
        SettingsStep::Open(tried)
    } else {
        SettingsStep::GaveUp
    }
}

} // verus!
