//! Where the workspace lives: a fixed directory under the application's
//! per-user data directory, apart from where preferences are kept.
//!
//! Only the path is worked out here. Creating the directory is left to the
//! caller, who reports back whether it went through.

use vstd::prelude::*;
use crate::error::HousekeepingError;

verus! {

/// The project directories of one application as `directories` keeps them.
/// Nothing inside is visible here.
#[verifier::external_type_specification]
#[verifier::external_body]
pub struct ExProjectDirs(directories::ProjectDirs);

/// `directories::ProjectDirs::from` works out the standard directories of an
/// application from the user's home directory and environment, and gives
/// `None` where no home directory is known. Nothing is claimed of which it
/// gives.
pub assume_specification[ directories::ProjectDirs::from ](
    qualifier: &str,
    organization: &str,
    application: &str,
) -> (dirs: Option<directories::ProjectDirs>)
;

/// `directories::ProjectDirs::data_dir`, as text. Nothing is claimed of the
/// text.
#[verifier::external_body]
fn data_dir_of(dirs: &directories::ProjectDirs) -> (data_dir: String) {
    dirs.data_dir().to_string_lossy().into_owned()
}

/// The path that `std::path::Path::join` makes of the path `base` and the
/// path `leaf`, as text: `leaf` adjoined to `base`. It is made from the two
/// paths and from nothing else. What the text is for two given paths is
/// left open here: the separator that goes between them is the platform's.
///
/// `join_path` is the call that gives it.
pub uninterp spec fn joined_path(base: Seq<char>, leaf: Seq<char>) -> Seq<char>;

/// Turns what the platform said of the data directory into a result: a
/// missing directory is `StorageUnavailable`.
pub fn require_data_dir(found: Option<String>) -> (result: Result<String, HousekeepingError>)
    ensures
        match found {
            Some(data_dir) => result == Ok::<String, HousekeepingError>(data_dir),
            None => result == Err::<String, HousekeepingError>(
                HousekeepingError::StorageUnavailable,
            ),
        },
{
    match found {
        Some(data_dir) => Ok(data_dir),
        None => Err(HousekeepingError::StorageUnavailable),
    }
}

/// The application's per-user data directory.
///
/// The only failure is `StorageUnavailable`: the platform knows no such
/// directory.
pub fn app_data_dir() -> (result: Result<String, HousekeepingError>)
    ensures
        result is Err ==> result == Err::<String, HousekeepingError>(
            HousekeepingError::StorageUnavailable,
        ),
{
    let found = match directories::ProjectDirs::from("com", "Photon", "Photon") {
        Some(dirs) => Some(data_dir_of(&dirs)),
        None => None,
    };
    require_data_dir(found)
}

/// The path of the temporary workspace: the directory `tmp` under the
/// application's data directory.
///
/// The only failure is `StorageUnavailable`.
pub fn temporary_workspace_dir() -> (result: Result<String, HousekeepingError>)
    ensures
        match result {
            Ok(path) => exists|data_dir: Seq<char>| path@ == #[trigger] workspace_under(data_dir),
            Err(error) => error == HousekeepingError::StorageUnavailable,
        },
{
    match app_data_dir() {
        Ok(data_dir) => Ok(workspace_dir_under(data_dir.as_str())),
        Err(error) => Err(error),
    }
}

/// The path of the workspace that belongs to the data directory `data_dir`:
/// the directory `tmp` joined to it.
pub fn workspace_dir_under(data_dir: &str) -> (path: String)
    ensures
        path@ == workspace_under(data_dir@),
{
    join_path(data_dir, "tmp")
}

/// Settles whether the workspace at `path` can be used. `created` tells
/// whether the directory is there now, found or made together with its
/// ancestors. A workspace that could not be made is `IoError`.
pub fn ensured_workspace(path: String, created: bool) -> (result: Result<
    String,
    HousekeepingError,
>)
    ensures
        result == if created {
            Ok::<String, HousekeepingError>(path)
        } else {
            Err::<String, HousekeepingError>(HousekeepingError::IoError)
        },
{
    if created {
        Ok(path)
    } else {
        Err(HousekeepingError::IoError)
    }
}

/// The path of the workspace that belongs to the data directory `data_dir`:
/// the directory `tmp` joined to it.
pub open spec fn workspace_under(data_dir: Seq<char>) -> Seq<char> {
    joined_path(data_dir, "tmp"@)
}

/// `std::path::Path::join`, as text: the path `leaf` adjoined to the path
/// `base`. The claim is that the result is `joined_path` of the two, that
/// is, that it hangs on the two paths alone.
#[verifier::external_body]
fn join_path(base: &str, leaf: &str) -> (joined: String)
    ensures
        joined@ == joined_path(base@, leaf@),
{
    std::path::Path::new(base).join(leaf).to_string_lossy().into_owned()
}

} // verus!
