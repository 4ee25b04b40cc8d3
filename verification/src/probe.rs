//! The disk probe: which mounted volume hosts a path, and how much room it
//! has left.
//!
//! Paths are compared component by component. A volume hosts a path when its
//! mount point is the path itself or one of its ancestors; among several, the
//! one mounted deepest is the path's own.
//!
//! The caller reads the mounted volumes and splits the paths; the choice
//! among them is made here.

use vstd::prelude::*;
use crate::error::HousekeepingError;

verus! {

/// A mounted volume, as far as the probe reads it.
#[derive(Debug, Clone, PartialEq, Eq)]
pub struct Volume {
    /// The components of the path the volume is mounted at, outermost first.
    pub mount_point: Vec<String>,
    /// Bytes free on the volume.
    pub available_bytes: u64,
}

/// Whether `ancestor` is `path` or a directory above it: a prefix of `path`,
/// component by component.
pub open spec fn is_ancestor(ancestor: Seq<String>, path: Seq<String>) -> bool {
    &&& ancestor.len() <= path.len()
    &&& forall|i: int| 0 <= i < ancestor.len() ==> (#[trigger] ancestor[i])@ == path[i]@
}

/// Whether `volume` is mounted at `path` or above it.
pub open spec fn hosts(volume: Volume, path: Seq<String>) -> bool {
    is_ancestor(volume.mount_point@, path)
}

/// Whether `volumes[chosen]` is the volume that `path` lies on: it hosts the
/// path, no volume hosting the path is mounted deeper, and of those mounted
/// just as deep it comes first.
pub open spec fn is_host_of(volumes: Seq<Volume>, path: Seq<String>, chosen: int) -> bool {
    &&& 0 <= chosen < volumes.len()
    &&& hosts(volumes[chosen], path)
    &&& forall|j: int|
        0 <= j < volumes.len() && hosts(#[trigger] volumes[j], path) ==> {
            ||| volumes[j].mount_point@.len() < volumes[chosen].mount_point@.len()
            ||| (volumes[j].mount_point@.len() == volumes[chosen].mount_point@.len() && chosen
                <= j)
        }
}

/// Tells whether `ancestor` is `path` or a directory above it.
pub fn is_path_ancestor(ancestor: &Vec<String>, path: &Vec<String>) -> (yes: bool)
    ensures
        yes == is_ancestor(ancestor@, path@),
{
    if ancestor.len() > path.len() {
        return false;
    }
    let mut i: usize = 0;
    while i < ancestor.len()
        invariant
            i <= ancestor.len() <= path.len(),
            forall|k: int| 0 <= k < i ==> (#[trigger] ancestor@[k])@ == path@[k]@,
        decreases ancestor.len() - i,
    {
        if ancestor[i] != path[i] {
            return false;
        }
        i += 1;
    }
    true
}

/// Finds the volume that `path` lies on: the one whose mount point is the
/// longest ancestor of `path`, the first such in `volumes` where two are
/// mounted at the same place. There is none exactly when no volume is
/// mounted at `path` or above it.
pub fn select_volume(path: &Vec<String>, volumes: &Vec<Volume>) -> (chosen: Option<usize>)
    ensures
        match chosen {
            Some(index) => is_host_of(volumes@, path@, index as int),
            None => forall|j: int| 0 <= j < volumes.len() ==> !hosts(#[trigger] volumes[j], path@),
        },
{
    let mut chosen: Option<usize> = None;
    let mut i: usize = 0;
    while i < volumes.len()
        invariant
            i <= volumes.len(),
            match chosen {
                Some(index) => index < i && is_host_of(volumes@.take(i as int), path@, index as int),
                None => forall|j: int| 0 <= j < i ==> !hosts(#[trigger] volumes[j], path@),
            },
        decreases volumes.len() - i,
    {
        let ghost seen = volumes@.take(i as int);
        let ghost next = volumes@.take(i + 1);
        proof {
            assert forall|j: int| 0 <= j < i implies #[trigger] next[j] == seen[j] by {}
        }
        if is_path_ancestor(&volumes[i].mount_point, path) {
            let deeper = match chosen {
                Some(index) => volumes[index].mount_point.len() < volumes[i].mount_point.len(),
                None => true,
            };
            if deeper {
                chosen = Some(i);
            }
        }
        proof {
            match chosen {
                Some(index) => {
                    assert forall|j: int|
                        0 <= j < next.len() && hosts(#[trigger] next[j], path@) implies {
                        ||| next[j].mount_point@.len() < next[index as int].mount_point@.len()
                        ||| (next[j].mount_point@.len() == next[index as int].mount_point@.len()
                            && index <= j)
                    } by {
                        if j < i {
                            assert(hosts(seen[j], path@));
                        }
                    }
                },
                None => {},
            }
        }
        i += 1;
    }
    proof {
        assert(volumes@.take(volumes.len() as int) == volumes@);
    }
    chosen
}

/// The bytes free on the volume that `path` lies on, among `volumes`.
///
/// Fails with `VolumeNotFound` exactly when no volume is mounted at `path`
/// or above it.
pub fn available_space_on(path: &Vec<String>, volumes: &Vec<Volume>) -> (result: Result<
    u64,
    HousekeepingError,
>)
    ensures
        match result {
            Ok(bytes) => exists|chosen: int|
                is_host_of(volumes@, path@, chosen) && bytes == (
                #[trigger] volumes[chosen]).available_bytes,
            Err(error) => error == HousekeepingError::VolumeNotFound && forall|j: int|
                0 <= j < volumes.len() ==> !hosts(#[trigger] volumes[j], path@),
        },
{
    match select_volume(path, volumes) {
        Some(index) => Ok(volumes[index].available_bytes),
        None => Err(HousekeepingError::VolumeNotFound),
    }
}

/// A path lies on at most one volume.
pub proof fn lemma_host_is_unique(
    volumes: Seq<Volume>,
    path: Seq<String>,
    first: int,
    second: int,
)
    requires
        is_host_of(volumes, path, first),
        is_host_of(volumes, path, second),
    ensures
        first == second,
{
}

/// Whether `volumes` agree on the room left wherever two of them that host
/// `path` are mounted at the same depth.
pub open spec fn ties_agree(volumes: Seq<Volume>, path: Seq<String>) -> bool {
    forall|i: int, j: int|
        #![trigger volumes[i], volumes[j]]
        0 <= i < volumes.len() && 0 <= j < volumes.len() && hosts(volumes[i], path) && hosts(
            volumes[j],
            path,
        ) && volumes[i].mount_point@.len() == volumes[j].mount_point@.len()
            ==> volumes[i].available_bytes == volumes[j].available_bytes
}

/// The order in which the volumes are listed does not change the room found
/// for a path, as long as volumes mounted at the same place agree on it:
/// only between such volumes does the first one listed win.
pub proof fn lemma_probe_ignores_volume_order(
    one: Seq<Volume>,
    other: Seq<Volume>,
    path: Seq<String>,
    first: int,
    second: int,
)
    requires
        one.to_multiset() == other.to_multiset(),
        ties_agree(one, path),
        is_host_of(one, path, first),
        is_host_of(other, path, second),
    ensures
        one[first].available_bytes == other[second].available_bytes,
{
    vstd::seq_lib::to_multiset_contains(one, other[second]);
    vstd::seq_lib::to_multiset_contains(other, other[second]);
    vstd::seq_lib::to_multiset_contains(one, one[first]);
    vstd::seq_lib::to_multiset_contains(other, one[first]);
    assert(other.contains(other[second]));
    assert(one.contains(one[first]));
    let same = choose|k: int| 0 <= k < one.len() && one[k] == other[second];
    let twin = choose|k: int| 0 <= k < other.len() && other[k] == one[first];
    assert(hosts(one[same], path) && hosts(other[twin], path));
}

/// Whether any volume hosts a path does not depend on the order in which
/// the volumes are listed.
pub proof fn lemma_hosting_ignores_volume_order(
    one: Seq<Volume>,
    other: Seq<Volume>,
    path: Seq<String>,
    i: int,
)
    requires
        one.to_multiset() == other.to_multiset(),
        0 <= i < one.len(),
        hosts(one[i], path),
    ensures
        exists|j: int| 0 <= j < other.len() && hosts(#[trigger] other[j], path),
{
    vstd::seq_lib::to_multiset_contains(one, one[i]);
    vstd::seq_lib::to_multiset_contains(other, one[i]);
    assert(one.contains(one[i]));
    let j = choose|j: int| 0 <= j < other.len() && other[j] == one[i];
    assert(hosts(other[j], path));
}

} // verus!
