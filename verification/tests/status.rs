use photon::error::HousekeepingError;
use photon::housekeeping::{housekeeping_status, HousekeepingConfig};
use photon::report::{CleanupReport, HousekeepingStatus, MIN_DISK_SPACE_BYTES};
use photon::retention::{RetentionWindow, TEMP_RETENTION_HOURS};

const MIB: u64 = 1024 * 1024;

fn status(available_bytes: u64, threshold_bytes: u64) -> HousekeepingStatus {
    HousekeepingStatus::new(
        available_bytes,
        threshold_bytes,
        "/data/photon/tmp".to_string(),
        CleanupReport { cleaned_entries: 3, reclaimed_bytes: 4_096 },
    )
}

#[test]
fn threshold_is_two_hundred_mebibytes() {
    assert_eq!(MIN_DISK_SPACE_BYTES, 200 * 1024 * 1024);
    assert_eq!(MIN_DISK_SPACE_BYTES, 209_715_200);
}

#[test]
fn retention_is_one_day() {
    assert_eq!(TEMP_RETENTION_HOURS, 24);
    assert_eq!(HousekeepingConfig::standard().retention, RetentionWindow { secs: 86_400 });
}

#[test]
fn standard_settings() {
    let config = HousekeepingConfig::standard();
    assert_eq!(config.threshold_bytes, 209_715_200);
    assert_eq!(config.retention.secs, 24 * 3_600);
    assert_eq!(HousekeepingConfig::default(), config);
}

#[test]
fn one_hundred_mebibytes_is_low_space() {
    let status = status(100 * MIB, 200 * MIB);
    assert!(status.low_space());
    assert_eq!(status.available_bytes(), 104_857_600);
    assert_eq!(status.threshold_bytes(), 209_715_200);
}

#[test]
fn space_exactly_at_the_threshold_is_low() {
    assert!(status(200 * MIB, 200 * MIB).low_space());
}

#[test]
fn one_byte_above_the_threshold_is_not_low() {
    assert!(!status(200 * MIB + 1, 200 * MIB).low_space());
}

#[test]
fn no_space_at_all_is_low() {
    assert!(status(0, 200 * MIB).low_space());
    assert!(status(0, 0).low_space());
}

#[test]
fn plenty_of_space_is_not_low() {
    assert!(!status(u64::MAX, 200 * MIB).low_space());
}

#[test]
fn flag_follows_the_figures_for_every_pair() {
    let figures = [0, 1, 200 * MIB - 1, 200 * MIB, 200 * MIB + 1, u64::MAX - 1, u64::MAX];
    for available in figures {
        for threshold in figures {
            let status = status(available, threshold);
            assert_eq!(status.low_space(), available <= threshold);
            assert_eq!(
                status.low_space(),
                status.available_bytes() <= status.threshold_bytes()
            );
        }
    }
}

#[test]
fn status_carries_what_it_was_given() {
    let status = status(5, 7);
    assert_eq!(status.temp_dir(), "/data/photon/tmp");
    assert_eq!(status.cleanup(), CleanupReport { cleaned_entries: 3, reclaimed_bytes: 4_096 });
    assert_eq!(status.clone(), status);
}

#[test]
fn closing_a_run_reports_what_the_sweep_and_the_probe_found() {
    let here = "/var/tmp/photon/tmp".to_string();
    let cleanup = CleanupReport { cleaned_entries: 1, reclaimed_bytes: 1_000 };
    let closed = housekeeping_status(here.clone(), cleanup, MIN_DISK_SPACE_BYTES, Ok(100 * MIB));
    assert_eq!(
        closed,
        Ok(HousekeepingStatus::new(100 * MIB, MIN_DISK_SPACE_BYTES, here.clone(), cleanup))
    );
    let status = closed.unwrap();
    assert_eq!(status.available_bytes(), 104_857_600);
    assert_eq!(status.threshold_bytes(), 209_715_200);
    assert!(status.low_space());
    assert_eq!(status.temp_dir(), &here);
    assert_eq!(status.cleanup(), cleanup);
}

#[test]
fn closing_a_run_with_room_to_spare_raises_no_flag() {
    let status = housekeeping_status(
        "tmp".to_string(),
        CleanupReport::empty(),
        MIN_DISK_SPACE_BYTES,
        Ok(MIN_DISK_SPACE_BYTES + 1),
    )
    .unwrap();
    assert!(!status.low_space());
    assert_eq!(status.available_bytes(), 209_715_201);
}

#[test]
fn failed_probe_fails_the_run() {
    let cleanup = CleanupReport { cleaned_entries: 2, reclaimed_bytes: 64 };
    assert_eq!(
        housekeeping_status(
            "tmp".to_string(),
            cleanup,
            MIN_DISK_SPACE_BYTES,
            Err(HousekeepingError::VolumeNotFound)
        ),
        Err(HousekeepingError::VolumeNotFound)
    );
}

#[test]
fn probe_error_is_handed_on_as_it_came() {
    for error in [
        HousekeepingError::StorageUnavailable,
        HousekeepingError::IoError,
        HousekeepingError::VolumeNotFound,
    ] {
        assert_eq!(
            housekeeping_status("tmp".to_string(), CleanupReport::empty(), 0, Err(error)),
            Err(error)
        );
    }
}

#[test]
fn every_error_has_its_own_message() {
    let storage = HousekeepingError::StorageUnavailable.message();
    let io = HousekeepingError::IoError.message();
    let volume = HousekeepingError::VolumeNotFound.message();
    assert_eq!(storage, "project dirs not found");
    assert_eq!(io, "workspace directory is not accessible");
    assert_eq!(volume, "no disk found for the workspace path");
}
