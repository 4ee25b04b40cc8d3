//! The value objects a housekeeping run produces.

use vstd::prelude::*;

verus! {

/// Free space at or below this many bytes counts as low (200 MiB).
pub const MIN_DISK_SPACE_BYTES: u64 = 200 * 1024 * 1024;

/// `total` cut to what a `u64` holds.
pub open spec fn saturate(total: int) -> u64 {
    if total > u64::MAX {
        u64::MAX
    } else if total < 0 {
        0
    } else {
        total as u64
    }
}

/// What one sweep removed.
#[derive(Debug, Clone, Copy, PartialEq, Eq, Structural)]
pub struct CleanupReport {
    /// Number of workspace entries removed.
    pub cleaned_entries: usize,
    /// Bytes those entries held, saturating at `u64::MAX`.
    pub reclaimed_bytes: u64,
}

impl CleanupReport {
    /// The report of a sweep that removed nothing.
    pub open spec fn spec_empty() -> CleanupReport {
        CleanupReport { cleaned_entries: 0, reclaimed_bytes: 0 }
    }

    /// The report of a sweep that removed nothing.
    #[verifier::when_used_as_spec(spec_empty)]
    pub fn empty() -> (report: CleanupReport)
        ensures
            report == Self::spec_empty(),
    {
        CleanupReport { cleaned_entries: 0, reclaimed_bytes: 0 }
    }
}

impl Default for CleanupReport {
    fn default() -> (report: CleanupReport)
        ensures
            report == CleanupReport::spec_empty(),
    {
        CleanupReport::empty()
    }
}

/// A housekeeping status as a mathematical value.
pub struct StatusView {
    /// Bytes free on the volume that hosts the workspace.
    pub available_bytes: u64,
    /// The level at or below which free space counts as low.
    pub threshold_bytes: u64,
    /// Whether free space is low.
    pub low_space: bool,
    /// The workspace's path.
    pub temp_dir: Seq<char>,
    /// What the sweep removed.
    pub cleanup: CleanupReport,
}

/// The snapshot one housekeeping run hands to the host: free space against
/// the threshold, the workspace's path, and what the sweep removed.
///
/// In every status, free space is flagged low exactly when the available
/// bytes are at or below the threshold.
#[derive(Debug, PartialEq, Eq)]
pub struct HousekeepingStatus {
    available_bytes: u64,
    threshold_bytes: u64,
    low_space: bool,
    temp_dir: String,
    cleanup: CleanupReport,
}

impl View for HousekeepingStatus {
    type V = StatusView;

    closed spec fn view(&self) -> StatusView {
        StatusView {
            available_bytes: self.available_bytes,
            threshold_bytes: self.threshold_bytes,
            low_space: self.low_space,
            temp_dir: self.temp_dir@,
            cleanup: self.cleanup,
        }
    }
}

impl Clone for HousekeepingStatus {
    fn clone(&self) -> (copy: HousekeepingStatus)
        ensures
            copy@ == self@,
    {
        proof {
            use_type_invariant(self);
        }
        HousekeepingStatus {
            available_bytes: self.available_bytes,
            threshold_bytes: self.threshold_bytes,
            low_space: self.low_space,
            temp_dir: self.temp_dir.clone(),
            cleanup: self.cleanup,
        }
    }
}

impl HousekeepingStatus {
    #[verifier::type_invariant]
    spec fn flag_matches_figures(&self) -> bool {
        self.low_space == (self.available_bytes <= self.threshold_bytes)
    }

    /// Assembles the status of a run, deriving the low-space flag from the
    /// two figures.
    pub fn new(
        available_bytes: u64,
        threshold_bytes: u64,
        temp_dir: String,
        cleanup: CleanupReport,
    ) -> (status: HousekeepingStatus)
        ensures
            status@ == (StatusView {
                available_bytes,
                threshold_bytes,
                low_space: available_bytes <= threshold_bytes,
                temp_dir: temp_dir@,
                cleanup,
            }),
    {
        HousekeepingStatus {
            available_bytes,
            threshold_bytes,
            low_space: available_bytes <= threshold_bytes,
            temp_dir,
            cleanup,
        }
    }

    /// Bytes free on the volume that hosts the workspace.
    pub fn available_bytes(&self) -> (bytes: u64)
        ensures
            bytes == self@.available_bytes,
    {
        self.available_bytes
    }

    /// The level at or below which free space counts as low.
    pub fn threshold_bytes(&self) -> (bytes: u64)
        ensures
            bytes == self@.threshold_bytes,
    {
        self.threshold_bytes
    }

    /// Whether free space is low: the available bytes are at or below the
    /// threshold.
    pub fn low_space(&self) -> (low: bool)
        ensures
            low == self@.low_space,
            low == (self@.available_bytes <= self@.threshold_bytes),
    {
        proof {
            use_type_invariant(self);
        }
        self.low_space
    }

    /// The workspace's path.
    pub fn temp_dir(&self) -> (path: &String)
        ensures
            path@ == self@.temp_dir,
    {
        &self.temp_dir
    }

    /// What the sweep removed.
    pub fn cleanup(&self) -> (report: CleanupReport)
        ensures
            report == self@.cleanup,
    {
        self.cleanup
    }
}

} // verus!
