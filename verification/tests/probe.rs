use photon::error::HousekeepingError;
use photon::probe::{available_space_on, is_path_ancestor, select_volume, Volume};

fn parts(components: &[&str]) -> Vec<String> {
    components.iter().map(|part| part.to_string()).collect()
}

fn volume(mount_point: &[&str], available_bytes: u64) -> Volume {
    Volume { mount_point: parts(mount_point), available_bytes }
}

#[test]
fn a_path_is_its_own_ancestor() {
    assert!(is_path_ancestor(&parts(&["/", "home"]), &parts(&["/", "home"])));
}

#[test]
fn the_empty_path_is_above_every_path() {
    assert!(is_path_ancestor(&parts(&[]), &parts(&["/", "home"])));
    assert!(is_path_ancestor(&parts(&[]), &parts(&[])));
}

#[test]
fn a_longer_path_is_no_ancestor() {
    assert!(!is_path_ancestor(&parts(&["/", "home", "u"]), &parts(&["/", "home"])));
}

#[test]
fn ancestors_are_compared_by_whole_components() {
    assert!(!is_path_ancestor(&parts(&["/", "home"]), &parts(&["/", "home2", "u"])));
    assert!(!is_path_ancestor(&parts(&["/", "hom"]), &parts(&["/", "home", "u"])));
    assert!(is_path_ancestor(&parts(&["/", "home"]), &parts(&["/", "home", "u"])));
}

#[test]
fn deepest_mount_point_wins() {
    let volumes = vec![
        volume(&["/"], 1),
        volume(&["/", "home"], 2),
        volume(&["/", "home", "u", "data"], 3),
        volume(&["/", "var"], 4),
    ];
    let path = parts(&["/", "home", "u", "data", "photon", "tmp"]);
    assert_eq!(select_volume(&path, &volumes), Some(2));
    assert_eq!(available_space_on(&path, &volumes), Ok(3));
}

#[test]
fn deepest_mount_point_wins_whatever_the_order() {
    let volumes = vec![
        volume(&["/", "home", "u"], 30),
        volume(&["/", "home"], 20),
        volume(&["/"], 10),
    ];
    assert_eq!(select_volume(&parts(&["/", "home", "u", "tmp"]), &volumes), Some(0));
    assert_eq!(select_volume(&parts(&["/", "home", "v", "tmp"]), &volumes), Some(1));
    assert_eq!(select_volume(&parts(&["/", "srv"]), &volumes), Some(2));
}

#[test]
fn first_of_two_volumes_at_one_mount_point_wins() {
    let volumes = vec![volume(&["/"], 10), volume(&["/", "mnt"], 20), volume(&["/", "mnt"], 30)];
    let path = parts(&["/", "mnt", "x"]);
    assert_eq!(select_volume(&path, &volumes), Some(1));
    assert_eq!(available_space_on(&path, &volumes), Ok(20));
}

#[test]
fn path_that_is_a_mount_point_lies_on_that_volume() {
    let volumes = vec![volume(&["/"], 10), volume(&["/", "mnt"], 20)];
    assert_eq!(available_space_on(&parts(&["/", "mnt"]), &volumes), Ok(20));
}

#[test]
fn volume_below_the_path_does_not_host_it() {
    let volumes = vec![volume(&["/", "mnt", "deep"], 20)];
    assert_eq!(select_volume(&parts(&["/", "mnt"]), &volumes), None);
}

#[test]
fn no_volume_on_the_path_is_an_error() {
    let volumes = vec![volume(&["C:", "\\"], 10), volume(&["/", "mnt"], 20)];
    let path = parts(&["/", "home", "u"]);
    assert_eq!(select_volume(&path, &volumes), None);
    assert_eq!(available_space_on(&path, &volumes), Err(HousekeepingError::VolumeNotFound));
}

#[test]
fn no_volumes_at_all_is_an_error() {
    assert_eq!(select_volume(&parts(&["/"]), &vec![]), None);
    assert_eq!(available_space_on(&parts(&["/"]), &vec![]), Err(HousekeepingError::VolumeNotFound));
}

#[test]
fn order_of_volumes_changes_nothing_where_no_two_share_a_mount_point() {
    let path = parts(&["/", "home", "u", "tmp"]);
    let volumes = vec![
        volume(&["/"], 1),
        volume(&["/", "home"], 2),
        volume(&["/", "home", "u"], 3),
        volume(&["/", "srv"], 4),
    ];
    let orders: [[usize; 4]; 6] =
        [[0, 1, 2, 3], [3, 2, 1, 0], [1, 0, 3, 2], [2, 3, 0, 1], [1, 2, 3, 0], [3, 0, 2, 1]];
    for order in orders {
        let shuffled: Vec<Volume> = order.iter().map(|&at| volumes[at].clone()).collect();
        assert_eq!(available_space_on(&path, &shuffled), Ok(3));
    }
}

#[test]
fn order_decides_only_between_volumes_at_one_mount_point() {
    let path = parts(&["/", "mnt", "x"]);
    let one = vec![volume(&["/", "mnt"], 20), volume(&["/", "mnt"], 30)];
    let other = vec![volume(&["/", "mnt"], 30), volume(&["/", "mnt"], 20)];
    assert_eq!(available_space_on(&path, &one), Ok(20));
    assert_eq!(available_space_on(&path, &other), Ok(30));
}
