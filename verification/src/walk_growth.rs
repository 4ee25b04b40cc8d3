//! How what is measured follows the tree as an entry is added to it.

use vstd::prelude::*;
use crate::listing::{DirListing, DirectoryEntry, EntryKind, EntryProbe};
use crate::report::saturate;
use crate::walk::{file_bytes, started, subdirectories};
use crate::walk_laws::{
    entries_of, lemma_walk_measures_subtree, nested_bytes, nested_dirs, readable, settled,
    tree_bytes, walked,
};

verus! {

/// How many times a walk from `dirs` comes to the directory `target`, down
/// to `depth` directories deep. In a tree every directory is met once.
pub open spec fn visits_to(
    tree: Map<String, DirListing>,
    dirs: Seq<String>,
    depth: nat,
    target: String,
) -> nat
    decreases depth, dirs.len(),
{
    if dirs.len() == 0 || depth == 0 {
        0
    } else {
        visits_to(tree, dirs.drop_last(), depth, target) + if dirs.last() == target {
            1nat
        } else {
            0nat
        } + visits_to(
            tree,
            subdirectories(entries_of(tree, dirs.last())),
            (depth - 1) as nat,
            target,
        )
    }
}

/// Whether `after` is the tree `before` with the regular file `added` put
/// into the directory `target`, and nothing else changed.
pub open spec fn file_added(
    before: Map<String, DirListing>,
    after: Map<String, DirListing>,
    target: String,
    added: DirectoryEntry,
) -> bool {
    &&& added.kind == EntryKind::File
    &&& entries_of(after, target) == entries_of(before, target).push(EntryProbe::Found(added))
    &&& forall|dir: String|
        dir != target ==> #[trigger] entries_of(after, dir) == entries_of(before, dir)
    &&& forall|dir: String| #[trigger] readable(after, dir) == readable(before, dir)
}

/// Whether `after` is the tree `before` with the new, empty directory
/// `added` put into the directory `target`, and nothing else changed.
pub open spec fn empty_directory_added(
    before: Map<String, DirListing>,
    after: Map<String, DirListing>,
    target: String,
    added: DirectoryEntry,
) -> bool {
    &&& added.kind == EntryKind::Directory
    &&& added.path != target
    &&& entries_of(after, target) == entries_of(before, target).push(EntryProbe::Found(added))
    &&& entries_of(after, added.path) == Seq::<EntryProbe>::empty()
    &&& forall|dir: String|
        dir != target && dir != added.path ==> #[trigger] entries_of(after, dir) == entries_of(
            before,
            dir,
        )
}

/// One more entry at the end of a listing adds its length to the bytes of the
/// listing's files if it is a regular file, and its path to the listing's
/// directories if it is a directory.
proof fn lemma_one_more_entry(entries: Seq<EntryProbe>, added: DirectoryEntry)
    ensures
        file_bytes(entries.push(EntryProbe::Found(added))) == file_bytes(entries) + if added.kind
            == EntryKind::File {
            added.len as nat
        } else {
            0nat
        },
        subdirectories(entries.push(EntryProbe::Found(added))) == if added.kind
            == EntryKind::Directory {
            subdirectories(entries).push(added.path)
        } else {
            subdirectories(entries)
        },
{
    assert(entries.push(EntryProbe::Found(added)).drop_last() == entries);
}

/// A regular file added to a directory adds its size to what is nested
/// within a work-list once for each time the walk comes to that directory,
/// and leaves the work-list as settled as it was.
pub proof fn lemma_added_file_adds_per_visit(
    before: Map<String, DirListing>,
    after: Map<String, DirListing>,
    dirs: Seq<String>,
    depth: nat,
    target: String,
    added: DirectoryEntry,
)
    requires
        file_added(before, after, target, added),
    ensures
        nested_bytes(after, dirs, depth) == nested_bytes(before, dirs, depth) + added.len
            * visits_to(before, dirs, depth, target),
        nested_dirs(after, dirs, depth) == nested_dirs(before, dirs, depth),
        settled(after, dirs, depth) == settled(before, dirs, depth),
    decreases depth, dirs.len(),
{
    if dirs.len() > 0 && depth > 0 {
        let dir = dirs.last();
        let below = subdirectories(entries_of(before, dir));
        let len = added.len as int;
        let earlier = visits_to(before, dirs.drop_last(), depth, target) as int;
        let deeper = visits_to(before, below, (depth - 1) as nat, target) as int;
        let here: int = if dir == target {
            1
        } else {
            0
        };
        lemma_one_more_entry(entries_of(before, target), added);
        lemma_added_file_adds_per_visit(before, after, dirs.drop_last(), depth, target, added);
        lemma_added_file_adds_per_visit(before, after, below, (depth - 1) as nat, target, added);
        assert(len * (earlier + here + deeper) == len * earlier + len * here + len * deeper)
            by (nonlinear_arith);
        assert(len * here == if dir == target {
            len
        } else {
            0
        }) by (nonlinear_arith)
            requires
                here == if dir == target {
                    1int
                } else {
                    0int
                },
        ;
    } else {
        assert(added.len * 0 == 0) by (nonlinear_arith);
    }
}

/// A new, empty directory added to a directory changes nothing of what is
/// nested within a work-list.
pub proof fn lemma_added_empty_directory_weighs_nothing(
    before: Map<String, DirListing>,
    after: Map<String, DirListing>,
    dirs: Seq<String>,
    depth: nat,
    target: String,
    added: DirectoryEntry,
)
    requires
        empty_directory_added(before, after, target, added),
        visits_to(before, dirs, depth, added.path) == 0,
    ensures
        nested_bytes(after, dirs, depth) == nested_bytes(before, dirs, depth),
    decreases depth, dirs.len(),
{
    if dirs.len() > 0 && depth > 0 {
        let dir = dirs.last();
        let below = subdirectories(entries_of(before, dir));
        lemma_one_more_entry(entries_of(before, target), added);
        lemma_added_empty_directory_weighs_nothing(
            before,
            after,
            dirs.drop_last(),
            depth,
            target,
            added,
        );
        lemma_added_empty_directory_weighs_nothing(
            before,
            after,
            below,
            (depth - 1) as nat,
            target,
            added,
        );
        if dir == target {
            let grown = below.push(added.path);
            let none = entries_of(after, added.path);
            assert(grown.drop_last() == below);
            assert(nested_bytes(after, subdirectories(none), (depth - 2) as nat) == 0);
            assert(nested_bytes(after, grown, (depth - 1) as nat) == nested_bytes(
                after,
                below,
                (depth - 1) as nat,
            ));
        }
    }
}

/// Adding one regular file of `k` bytes to the root or to any directory
/// under it raises what the walk measures by `k`, up to `u64::MAX`.
pub proof fn lemma_added_file_adds_its_size(
    before: Map<String, DirListing>,
    after: Map<String, DirListing>,
    root: String,
    depth: nat,
    target: String,
    added: DirectoryEntry,
)
    requires
        file_added(before, after, target, added),
        settled(before, seq![root], depth),
        visits_to(before, seq![root], depth, target) == 1,
    ensures
        settled(after, seq![root], depth),
        tree_bytes(after, root, depth) == tree_bytes(before, root, depth) + added.len,
        walked(after, started(root), nested_dirs(after, seq![root], depth)).total == saturate(
            tree_bytes(before, root, depth) + added.len,
        ),
{
    lemma_added_file_adds_per_visit(before, after, seq![root], depth, target, added);
    lemma_walk_measures_subtree(after, root, depth);
}

/// Adding a new, empty directory to the root or to any directory under it
/// leaves what the walk measures as it was.
pub proof fn lemma_added_empty_directory_adds_nothing(
    before: Map<String, DirListing>,
    after: Map<String, DirListing>,
    root: String,
    depth: nat,
    target: String,
    added: DirectoryEntry,
)
    requires
        empty_directory_added(before, after, target, added),
        visits_to(before, seq![root], depth, added.path) == 0,
        settled(before, seq![root], depth),
        settled(after, seq![root], depth),
    ensures
        tree_bytes(after, root, depth) == tree_bytes(before, root, depth),
        walked(after, started(root), nested_dirs(after, seq![root], depth)).total == walked(
            before,
            started(root),
            nested_dirs(before, seq![root], depth),
        ).total,
{
    lemma_added_empty_directory_weighs_nothing(before, after, seq![root], depth, target, added);
    lemma_walk_measures_subtree(before, root, depth);
    lemma_walk_measures_subtree(after, root, depth);
}

} // verus!
