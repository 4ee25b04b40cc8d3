//! What a finished walk has measured, proved against a model of the
//! directory tree.
//!
//! The model is a map from each directory's path to the listing it gives.
//! A walk run against it pops a directory, takes in that directory's
//! listing, and goes on until its work-list is empty.

use vstd::multiset::Multiset;
use vstd::prelude::*;
use crate::listing::{DirListing, EntryKind, EntryProbe};
use crate::report::saturate;
use crate::walk::{absorbed, all_found, file_bytes, started, stepped, subdirectories, WalkState, WalkStep};

verus! {

/// The entries of the directory `dir` in the tree `tree`.
pub open spec fn entries_of(tree: Map<String, DirListing>, dir: String) -> Seq<EntryProbe> {
    match tree[dir] {
        DirListing::Entries(entries) => entries@,
        DirListing::Unreadable => Seq::empty(),
    }
}

/// Whether `dir` is a directory of `tree` that can be listed, with every
/// entry readable.
pub open spec fn readable(tree: Map<String, DirListing>, dir: String) -> bool {
    &&& tree.dom().contains(dir)
    &&& tree[dir] is Entries
    &&& all_found(entries_of(tree, dir))
}

/// Whether the subtrees under `dirs` are readable throughout and no more
/// than `depth` directories deep.
pub open spec fn settled(tree: Map<String, DirListing>, dirs: Seq<String>, depth: nat) -> bool
    decreases depth, dirs.len(),
{
    if dirs.len() == 0 {
        true
    } else if depth == 0 {
        false
    } else {
        &&& readable(tree, dirs.last())
        &&& settled(tree, dirs.drop_last(), depth)
        &&& settled(tree, subdirectories(entries_of(tree, dirs.last())), (depth - 1) as nat)
    }
}

/// The bytes of all regular files nested within the directories `dirs`, down
/// to `depth` directories deep, as an unbounded sum.
pub open spec fn nested_bytes(tree: Map<String, DirListing>, dirs: Seq<String>, depth: nat) -> nat
    decreases depth, dirs.len(),
{
    if dirs.len() == 0 || depth == 0 {
        0
    } else {
        nested_bytes(tree, dirs.drop_last(), depth) + file_bytes(entries_of(tree, dirs.last()))
            + nested_bytes(
            tree,
            subdirectories(entries_of(tree, dirs.last())),
            (depth - 1) as nat,
        )
    }
}

/// The number of directories in the subtrees under `dirs`, the directories
/// of `dirs` included, down to `depth` directories deep.
pub open spec fn nested_dirs(tree: Map<String, DirListing>, dirs: Seq<String>, depth: nat) -> nat
    decreases depth, dirs.len(),
{
    if dirs.len() == 0 || depth == 0 {
        0
    } else {
        nested_dirs(tree, dirs.drop_last(), depth) + 1 + nested_dirs(
            tree,
            subdirectories(entries_of(tree, dirs.last())),
            (depth - 1) as nat,
        )
    }
}

/// The bytes of all regular files nested within the directory `root`.
pub open spec fn tree_bytes(tree: Map<String, DirListing>, root: String, depth: nat) -> nat {
    nested_bytes(tree, seq![root], depth)
}

/// The state of a walk that started in `state` and visited up to `visits`
/// directories of `tree`, each time taking in the listing of the directory
/// it asked for.
pub open spec fn walked(tree: Map<String, DirListing>, state: WalkState, visits: nat) -> WalkState
    decreases visits,
{
    if visits == 0 {
        state
    } else {
        match stepped(state).1 {
            WalkStep::Visit(dir) => walked(
                tree,
                absorbed(stepped(state).0, tree[dir]),
                (visits - 1) as nat,
            ),
            _ => state,
        }
    }
}

/// Settledness, bytes and directory counts of two work-lists put together are
/// those of the parts.
proof fn lemma_work_lists_add_up(
    tree: Map<String, DirListing>,
    first: Seq<String>,
    second: Seq<String>,
    depth: nat,
)
    ensures
        settled(tree, first + second, depth) == (settled(tree, first, depth) && settled(
            tree,
            second,
            depth,
        )),
        nested_bytes(tree, first + second, depth) == nested_bytes(tree, first, depth)
            + nested_bytes(tree, second, depth),
        nested_dirs(tree, first + second, depth) == nested_dirs(tree, first, depth) + nested_dirs(
            tree,
            second,
            depth,
        ),
    decreases second.len(),
{
    if second.len() > 0 {
        assert((first + second).drop_last() == first + second.drop_last());
        lemma_work_lists_add_up(tree, first, second.drop_last(), depth);
    }
}

/// A settled work-list stays settled, and measures the same, when explored
/// one level deeper.
proof fn lemma_depth_to_spare(tree: Map<String, DirListing>, dirs: Seq<String>, depth: nat)
    requires
        settled(tree, dirs, depth),
    ensures
        settled(tree, dirs, depth + 1),
        nested_bytes(tree, dirs, depth + 1) == nested_bytes(tree, dirs, depth),
        nested_dirs(tree, dirs, depth + 1) == nested_dirs(tree, dirs, depth),
    decreases depth, dirs.len(),
{
    if dirs.len() > 0 {
        lemma_depth_to_spare(tree, dirs.drop_last(), depth);
        lemma_depth_to_spare(
            tree,
            subdirectories(entries_of(tree, dirs.last())),
            (depth - 1) as nat,
        );
    }
}

/// A walk over settled subtrees empties its work-list in as many visits as
/// there are directories, and has then added every nested file to its total.
proof fn lemma_walk_drains(
    tree: Map<String, DirListing>,
    state: WalkState,
    depth: nat,
    counted: nat,
)
    requires
        !state.failed,
        settled(tree, state.pending, depth),
        state.total == saturate(counted as int),
    ensures
        walked(tree, state, nested_dirs(tree, state.pending, depth)) == (WalkState {
            total: saturate((counted + nested_bytes(tree, state.pending, depth)) as int),
            pending: Seq::empty(),
            failed: false,
        }),
    decreases nested_dirs(tree, state.pending, depth),
{
    if state.pending.len() > 0 {
        let dir = state.pending.last();
        let rest = state.pending.drop_last();
        let entries = entries_of(tree, dir);
        let below = subdirectories(entries);
        let next = absorbed(stepped(state).0, tree[dir]);
        lemma_depth_to_spare(tree, below, (depth - 1) as nat);
        lemma_work_lists_add_up(tree, rest, below, depth);
        lemma_walk_drains(tree, next, depth, counted + file_bytes(entries));
    }
}

/// Measuring a directory gives the sum of the sizes of all regular files
/// nested within it, cut to `u64::MAX`. The sum is taken over the tree, so
/// the order in which the walk visits the directories plays no part in it.
///
/// The walk takes one visit for each directory of the subtree and then
/// reports that it is done.
pub proof fn lemma_walk_measures_subtree(
    tree: Map<String, DirListing>,
    root: String,
    depth: nat,
)
    requires
        settled(tree, seq![root], depth),
    ensures
        walked(tree, started(root), nested_dirs(tree, seq![root], depth)) == (WalkState {
            total: saturate(tree_bytes(tree, root, depth) as int),
            pending: Seq::empty(),
            failed: false,
        }),
        stepped(walked(tree, started(root), nested_dirs(tree, seq![root], depth))).1
            == WalkStep::Done(saturate(tree_bytes(tree, root, depth) as int)),
{
    lemma_walk_drains(tree, started(root), depth, 0);
}

/// A walk that met something unreadable stays failed whatever it is fed
/// afterwards, and says so when asked for its next step.
pub proof fn lemma_failed_walk_stays_failed(
    tree: Map<String, DirListing>,
    state: WalkState,
    listing: DirListing,
    visits: nat,
)
    requires
        state.failed,
    ensures
        absorbed(state, listing) == state,
        stepped(state) == (state, WalkStep::Failed),
        walked(tree, state, visits) == state,
    decreases visits,
{
    if visits > 0 {
        lemma_failed_walk_stays_failed(tree, state, listing, (visits - 1) as nat);
    }
}

/// A directory that cannot be listed, or that holds an entry that cannot be
/// read, fails the walk that visits it.
pub proof fn lemma_unreadable_directory_fails_walk(state: WalkState, listing: DirListing)
    requires
        !state.failed,
        listing is Unreadable || !all_found(listing->Entries_0@),
    ensures
        absorbed(state, listing).failed,
        stepped(absorbed(state, listing)).1 == WalkStep::Failed,
{
}

/// Whether `other` is the tree `one` with the entries of some directories
/// listed in another order.
pub open spec fn reordered(one: Map<String, DirListing>, other: Map<String, DirListing>) -> bool {
    &&& one.dom() == other.dom()
    &&& forall|dir: String|
        (#[trigger] one[dir] is Entries) == (other[dir] is Entries) && entries_of(
            one,
            dir,
        ).to_multiset() == entries_of(other, dir).to_multiset()
}

/// What one entry adds to the bytes of its directory's files.
spec fn own_weight(probe: EntryProbe) -> nat {
    match probe {
        EntryProbe::Found(entry) if entry.kind == EntryKind::File => entry.len as nat,
        _ => 0,
    }
}

/// Adds up what `weight` gives for each item.
spec fn adding<A>(weight: spec_fn(A) -> nat) -> spec_fn(nat, A) -> nat {
    |sum: nat, item: A| sum + weight(item)
}

/// Holds as long as `holds` is true of each item.
spec fn requiring<A>(holds: spec_fn(A) -> bool) -> spec_fn(bool, A) -> bool {
    |so_far: bool, item: A| so_far && holds(item)
}

/// Collects the paths of the directories among the entries.
spec fn collecting() -> spec_fn(Multiset<String>, EntryProbe) -> Multiset<String> {
    |paths: Multiset<String>, probe: EntryProbe|
        match probe {
            EntryProbe::Found(entry) if entry.kind == EntryKind::Directory => paths.insert(
                entry.path,
            ),
            _ => paths,
        }
}

/// The bytes of the files of one listing do not depend on its order.
proof fn lemma_file_bytes_ignore_order(one: Seq<EntryProbe>, other: Seq<EntryProbe>)
    requires
        one.to_multiset() == other.to_multiset(),
    ensures
        file_bytes(one) == file_bytes(other),
{
    let weight = |probe: EntryProbe| own_weight(probe);
    lemma_file_bytes_is_a_sum(one, weight);
    lemma_file_bytes_is_a_sum(other, weight);
    vstd::seq_lib::lemma_fold_left_permutation(one, other, adding(weight), 0nat);
}

proof fn lemma_file_bytes_is_a_sum(entries: Seq<EntryProbe>, weight: spec_fn(EntryProbe) -> nat)
    requires
        forall|probe: EntryProbe| #[trigger] weight(probe) == own_weight(probe),
    ensures
        file_bytes(entries) == entries.fold_left(0nat, adding(weight)),
        vstd::seq_lib::commutative_foldl(adding(weight)),
    decreases entries.len(),
{
    if entries.len() > 0 {
        lemma_file_bytes_is_a_sum(entries.drop_last(), weight);
    }
}

/// Whether every entry of a listing was read does not depend on its order.
proof fn lemma_all_found_ignores_order(one: Seq<EntryProbe>, other: Seq<EntryProbe>)
    requires
        one.to_multiset() == other.to_multiset(),
        all_found(one),
    ensures
        all_found(other),
{
    assert forall|i: int| 0 <= i < other.len() implies #[trigger] other[i] is Found by {
        vstd::seq_lib::to_multiset_contains(other, other[i]);
        vstd::seq_lib::to_multiset_contains(one, other[i]);
    }
}

/// The directories of one listing are the same, up to order, however the
/// listing is ordered.
proof fn lemma_subdirectories_ignore_order(one: Seq<EntryProbe>, other: Seq<EntryProbe>)
    requires
        one.to_multiset() == other.to_multiset(),
    ensures
        subdirectories(one).to_multiset() == subdirectories(other).to_multiset(),
{
    lemma_subdirectories_are_collected(one);
    lemma_subdirectories_are_collected(other);
    vstd::seq_lib::lemma_fold_left_permutation(
        one,
        other,
        collecting(),
        Multiset::<String>::empty(),
    );
}

proof fn lemma_subdirectories_are_collected(entries: Seq<EntryProbe>)
    ensures
        subdirectories(entries).to_multiset() == entries.fold_left(
            Multiset::<String>::empty(),
            collecting(),
        ),
        vstd::seq_lib::commutative_foldl(collecting()),
    decreases entries.len(),
{
    assert forall|x: EntryProbe, y: EntryProbe, paths: Multiset<String>|
        #[trigger] collecting()(collecting()(paths, x), y) == collecting()(
            collecting()(paths, y),
            x,
        ) by {
        assert(collecting()(collecting()(paths, x), y) =~= collecting()(
            collecting()(paths, y),
            x,
        ));
    }
    if entries.len() == 0 {
        assert(subdirectories(entries).to_multiset() =~= Multiset::<String>::empty()) by {
            subdirectories(entries).to_multiset_ensures();
        }
    } else {
        lemma_subdirectories_are_collected(entries.drop_last());
        vstd::seq_lib::to_multiset_build(
            subdirectories(entries.drop_last()),
            entries.last()->Found_0.path,
        );
    }
}

/// What the directory `dir` adds to the bytes nested within a work-list.
spec fn own_bytes(tree: Map<String, DirListing>, dir: String, depth: nat) -> nat {
    file_bytes(entries_of(tree, dir)) + nested_bytes(
        tree,
        subdirectories(entries_of(tree, dir)),
        (depth - 1) as nat,
    )
}

/// Whether the subtree under `dir` is readable and no more than `depth`
/// directories deep.
spec fn own_settled(tree: Map<String, DirListing>, dir: String, depth: nat) -> bool {
    readable(tree, dir) && settled(
        tree,
        subdirectories(entries_of(tree, dir)),
        (depth - 1) as nat,
    )
}

proof fn lemma_nested_bytes_is_a_sum(
    tree: Map<String, DirListing>,
    dirs: Seq<String>,
    depth: nat,
    weight: spec_fn(String) -> nat,
    holds: spec_fn(String) -> bool,
)
    requires
        depth > 0,
        forall|dir: String| #[trigger] weight(dir) == own_bytes(tree, dir, depth),
        forall|dir: String| #[trigger] holds(dir) == own_settled(tree, dir, depth),
    ensures
        nested_bytes(tree, dirs, depth) == dirs.fold_left(0nat, adding(weight)),
        settled(tree, dirs, depth) == dirs.fold_left(true, requiring(holds)),
        vstd::seq_lib::commutative_foldl(adding(weight)),
        vstd::seq_lib::commutative_foldl(requiring(holds)),
    decreases dirs.len(),
{
    if dirs.len() > 0 {
        lemma_nested_bytes_is_a_sum(tree, dirs.drop_last(), depth, weight, holds);
    }
}

/// Neither the bytes nested within a work-list nor its being settled depend
/// on the order of the work-list or on the order of any listing below it.
proof fn lemma_nested_bytes_ignore_order(
    one: Map<String, DirListing>,
    other: Map<String, DirListing>,
    first: Seq<String>,
    second: Seq<String>,
    depth: nat,
)
    requires
        reordered(one, other),
        first.to_multiset() == second.to_multiset(),
    ensures
        nested_bytes(one, first, depth) == nested_bytes(other, second, depth),
        settled(one, first, depth) == settled(other, second, depth),
    decreases depth,
{
    vstd::seq_lib::to_multiset_len(first);
    vstd::seq_lib::to_multiset_len(second);
    if depth > 0 {
        let weight = |dir: String| own_bytes(one, dir, depth);
        let holds = |dir: String| own_settled(one, dir, depth);
        assert forall|dir: String|
            own_bytes(one, dir, depth) == #[trigger] own_bytes(other, dir, depth) && own_settled(
                one,
                dir,
                depth,
            ) == own_settled(other, dir, depth) by {
            let here = entries_of(one, dir);
            let there = entries_of(other, dir);
            lemma_file_bytes_ignore_order(here, there);
            lemma_subdirectories_ignore_order(here, there);
            if all_found(here) {
                lemma_all_found_ignores_order(here, there);
            }
            if all_found(there) {
                lemma_all_found_ignores_order(there, here);
            }
            lemma_nested_bytes_ignore_order(
                one,
                other,
                subdirectories(here),
                subdirectories(there),
                (depth - 1) as nat,
            );
        }
        assert forall|dir: String|
            own_settled(one, dir, depth) == #[trigger] own_settled(other, dir, depth) by {
            assert(own_bytes(one, dir, depth) == own_bytes(other, dir, depth));
        }
        lemma_nested_bytes_is_a_sum(one, first, depth, weight, holds);
        lemma_nested_bytes_is_a_sum(other, second, depth, weight, holds);
        vstd::seq_lib::lemma_fold_left_permutation(first, second, adding(weight), 0nat);
        vstd::seq_lib::lemma_fold_left_permutation(first, second, requiring(holds), true);
    }
}

/// The order in which directories list their entries, and with it the order
/// in which the walk visits them, does not change what is measured: two
/// trees that differ only in the order of their listings are walked to the
/// same total.
pub proof fn lemma_walk_ignores_listing_order(
    one: Map<String, DirListing>,
    other: Map<String, DirListing>,
    root: String,
    depth: nat,
)
    requires
        reordered(one, other),
        settled(one, seq![root], depth),
    ensures
        settled(other, seq![root], depth),
        tree_bytes(one, root, depth) == tree_bytes(other, root, depth),
        walked(other, started(root), nested_dirs(other, seq![root], depth)) == walked(
            one,
            started(root),
            nested_dirs(one, seq![root], depth),
        ),
{
    lemma_nested_bytes_ignore_order(one, other, seq![root], seq![root], depth);
    lemma_walk_measures_subtree(one, root, depth);
    lemma_walk_measures_subtree(other, root, depth);
}

} // verus!
