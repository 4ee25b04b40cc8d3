//! The one preference housekeeping's host reads: the active profile.

use vstd::prelude::*;
use vstd::string::*;

verus! {

/// The persisted application settings.
#[derive(Debug, Clone, PartialEq, Eq)]
pub struct AppConfig {
    /// The profile the user chose, if any.
    pub active_profile: Option<String>,
}

impl Default for AppConfig {
    fn default() -> (config: AppConfig)
        ensures
            config.active_profile is None,
    {
        AppConfig { active_profile: None }
    }
}

/// What the host shows of the machine and the settings at start-up.
#[derive(Debug, Clone, PartialEq, Eq)]
pub struct RuntimeInfo {
    /// Whether a camera was found.
    pub webcam_detected: bool,
    /// The active profile, if it could be read.
    pub active_profile: Option<String>,
}

/// The active profile according to `config`: the one the user chose, or the
/// profile named `default` where none was chosen.
pub fn load_active_profile(config: AppConfig) -> (profile: Option<String>)
    ensures
        match config.active_profile {
            Some(name) => profile == Some(name),
            None => profile is Some && profile->Some_0@ == "default"@,
        },
{
    match config.active_profile {
        Some(name) => Some(name),
        None => Some(String::from_str("default")),
    }
}

/// Puts the two start-up probes together. A probe that failed is `None`:
/// the camera then counts as absent and the profile as unknown.
pub fn runtime_info(webcam: Option<bool>, profile: Option<Option<String>>) -> (info: RuntimeInfo)
    ensures
        info.webcam_detected == (webcam == Some(true)),
        info.active_profile == match profile {
            Some(read) => read,
            None => None,
        },
{
    let webcam_detected = match webcam {
        Some(present) => present,
        None => false,
    };
    let active_profile = match profile {
        Some(read) => read,
        None => None,
    };
    RuntimeInfo { webcam_detected, active_profile }
}

} // verus!
