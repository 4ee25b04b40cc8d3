use photon::error::HousekeepingError;
use photon::locator::{
    app_data_dir, ensured_workspace, require_data_dir, temporary_workspace_dir, workspace_dir_under,
};

#[test]
fn missing_data_directory_is_storage_unavailable() {
    assert_eq!(require_data_dir(None), Err(HousekeepingError::StorageUnavailable));
}

#[test]
fn known_data_directory_is_passed_on() {
    assert_eq!(require_data_dir(Some("/data/photon".to_string())), Ok("/data/photon".to_string()));
}

#[test]
fn workspace_is_the_tmp_directory_under_the_data_directory() {
    match (app_data_dir(), temporary_workspace_dir()) {
        (Ok(data_dir), Ok(workspace)) => {
            assert_eq!(std::path::Path::new(&workspace), std::path::Path::new(&data_dir).join("tmp"));
            assert_ne!(workspace, data_dir);
            assert!(workspace.ends_with("tmp"));
        }
        (Err(first), Err(second)) => {
            assert_eq!(first, HousekeepingError::StorageUnavailable);
            assert_eq!(second, HousekeepingError::StorageUnavailable);
        }
        (data_dir, workspace) => panic!("{:?} against {:?}", data_dir, workspace),
    }
}

#[test]
fn locating_the_workspace_twice_gives_the_same_path() {
    assert_eq!(temporary_workspace_dir(), temporary_workspace_dir());
}

#[test]
fn data_directory_is_named_after_the_application() {
    if let Ok(data_dir) = app_data_dir() {
        assert!(data_dir.to_lowercase().contains("photon"));
    }
}

#[test]
fn workspace_under_a_data_directory_is_its_tmp_directory() {
    let workspace = workspace_dir_under("data");
    assert_eq!(std::path::Path::new(&workspace), std::path::Path::new("data").join("tmp"));
    assert_ne!(workspace, "data");
    assert_ne!(workspace, "tmp");
}

#[test]
fn workspace_agrees_with_the_data_directory() {
    if let (Ok(data_dir), Ok(workspace)) = (app_data_dir(), temporary_workspace_dir()) {
        assert_eq!(workspace_dir_under(&data_dir), workspace);
    }
}

#[test]
fn workspace_that_was_created_is_handed_on() {
    assert_eq!(ensured_workspace("data/tmp".to_string(), true), Ok("data/tmp".to_string()));
}

#[test]
fn workspace_that_could_not_be_created_is_an_io_error() {
    assert_eq!(ensured_workspace("data/tmp".to_string(), false), Err(HousekeepingError::IoError));
}
