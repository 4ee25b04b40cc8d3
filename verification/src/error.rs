//! The ways a housekeeping run can fail as a whole.

use vstd::prelude::*;
use vstd::string::*;

verus! {

/// A failure that leaves no meaningful status to report.
///
/// Trouble with a single workspace entry never becomes one of these: the
/// sweep skips the entry and goes on.
#[derive(Debug, Clone, Copy, PartialEq, Eq, Structural)]
pub enum HousekeepingError {
    /// The platform offers no per-user data directory.
    StorageUnavailable,
    /// A directory could not be created, listed or read at the top level.
    IoError,
    /// No mounted volume lies on the workspace's path.
    VolumeNotFound,
}

impl HousekeepingError {
    /// The text of `message`, as characters.
    pub open spec fn message_text(self) -> Seq<char> {
        match self {
            HousekeepingError::StorageUnavailable => "project dirs not found"@,
            HousekeepingError::IoError => "workspace directory is not accessible"@,
            HousekeepingError::VolumeNotFound => "no disk found for the workspace path"@,
        }
    }

    /// A description fit to show to the user.
    pub fn message(&self) -> (text: String)
        ensures
            text@ == self.message_text(),
    {
        match self {
            HousekeepingError::StorageUnavailable => String::from_str("project dirs not found"),
            HousekeepingError::IoError => String::from_str("workspace directory is not accessible"),
            HousekeepingError::VolumeNotFound => String::from_str(
                "no disk found for the workspace path",
            ),
        }
    }
}

} // verus!
