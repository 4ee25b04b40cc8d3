use photon::profile::{load_active_profile, runtime_info, AppConfig, RuntimeInfo};

#[test]
fn chosen_profile_is_the_active_one() {
    let config = AppConfig { active_profile: Some("scanner".to_string()) };
    assert_eq!(load_active_profile(config), Some("scanner".to_string()));
}

#[test]
fn profile_defaults_to_default() {
    assert_eq!(load_active_profile(AppConfig::default()), Some("default".to_string()));
    assert_eq!(
        load_active_profile(AppConfig { active_profile: None }),
        Some("default".to_string())
    );
}

#[test]
fn empty_profile_name_is_kept() {
    let config = AppConfig { active_profile: Some(String::new()) };
    assert_eq!(load_active_profile(config), Some(String::new()));
}

#[test]
fn default_settings_choose_no_profile() {
    assert_eq!(AppConfig::default(), AppConfig { active_profile: None });
}

#[test]
fn runtime_info_carries_both_probes() {
    assert_eq!(
        runtime_info(Some(true), Some(Some("scanner".to_string()))),
        RuntimeInfo { webcam_detected: true, active_profile: Some("scanner".to_string()) }
    );
    assert_eq!(
        runtime_info(Some(false), Some(None)),
        RuntimeInfo { webcam_detected: false, active_profile: None }
    );
}

#[test]
fn failed_probes_fall_back() {
    assert_eq!(
        runtime_info(None, None),
        RuntimeInfo { webcam_detected: false, active_profile: None }
    );
    assert_eq!(
        runtime_info(None, Some(Some("p".to_string()))),
        RuntimeInfo { webcam_detected: false, active_profile: Some("p".to_string()) }
    );
    assert_eq!(
        runtime_info(Some(true), None),
        RuntimeInfo { webcam_detected: true, active_profile: None }
    );
}
