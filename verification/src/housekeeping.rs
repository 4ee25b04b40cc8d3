//! The last step of a housekeeping run: set what the disk probe found
//! against the threshold and assemble the status.

use vstd::prelude::*;
use crate::error::HousekeepingError;
use crate::report::{CleanupReport, HousekeepingStatus, StatusView, MIN_DISK_SPACE_BYTES};
use crate::retention::{RetentionWindow, SECS_PER_HOUR, TEMP_RETENTION_HOURS};

verus! {

/// The two tunables of a run.
#[derive(Debug, Clone, Copy, PartialEq, Eq, Structural)]
pub struct HousekeepingConfig {
    /// How long an entry may go unmodified before the sweep removes it.
    pub retention: RetentionWindow,
    /// The level of free space at or below which space counts as low.
    pub threshold_bytes: u64,
}

impl HousekeepingConfig {
    /// The standard settings: entries are kept for 24 hours, and 200 MiB or
    /// less of free space counts as low.
    pub open spec fn spec_standard() -> HousekeepingConfig {
        HousekeepingConfig {
            retention: RetentionWindow { secs: (TEMP_RETENTION_HOURS * SECS_PER_HOUR) as u64 },
            threshold_bytes: MIN_DISK_SPACE_BYTES,
        }
    }

    /// The standard settings.
    #[verifier::when_used_as_spec(spec_standard)]
    pub fn standard() -> (config: HousekeepingConfig)
        ensures
            config == Self::spec_standard(),
            config.retention.secs == 86_400,
            config.threshold_bytes == 209_715_200,
    {
        HousekeepingConfig {
            retention: RetentionWindow::from_hours(TEMP_RETENTION_HOURS),
            threshold_bytes: MIN_DISK_SPACE_BYTES,
        }
    }
}

impl Default for HousekeepingConfig {
    fn default() -> (config: HousekeepingConfig)
        ensures
            config == HousekeepingConfig::spec_standard(),
    {
        HousekeepingConfig::standard()
    }
}

/// Closes a run whose sweep of the workspace at `temp_dir` reported
/// `cleanup` and whose probe of the volume under the workspace ended as
/// `probed`.
///
/// A probe that failed fails the run with the probe's error. Otherwise the
/// status carries the bytes found, the threshold, the path and the report as
/// given, and flags low space exactly when the bytes are at or below the
/// threshold.
pub fn housekeeping_status(
    temp_dir: String,
    cleanup: CleanupReport,
    threshold_bytes: u64,
    probed: Result<u64, HousekeepingError>,
) -> (result: Result<HousekeepingStatus, HousekeepingError>)
    ensures
        match probed {
            Ok(available_bytes) => result is Ok && result->Ok_0@ == (StatusView {
                available_bytes,
                threshold_bytes,
                low_space: available_bytes <= threshold_bytes,
                temp_dir: temp_dir@,
                cleanup,
            }),
            Err(error) => result is Err && result->Err_0 == error,
        },
{
    match probed {
        Ok(available_bytes) => Ok(
            HousekeepingStatus::new(available_bytes, threshold_bytes, temp_dir, cleanup),
        ),
        Err(error) => Err(error),
    }
}

} // verus!
