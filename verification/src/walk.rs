//! Measuring a directory subtree without recursion.
//!
//! A `SizeWalk` keeps the bytes counted so far and a work-list of
//! directories still to visit. The caller asks it which directory comes
//! next, lists that directory, and hands the listing back, until the walk
//! says it is done.

use vstd::prelude::*;
use crate::listing::{DirListing, EntryKind, EntryProbe};
use crate::report::saturate;

verus! {

/// A walk in progress, as a mathematical value.
#[verifier::ext_equal]
pub struct WalkState {
    /// Bytes counted so far, saturating at `u64::MAX`.
    pub total: u64,
    /// Directories still to visit; the last one is visited next.
    pub pending: Seq<String>,
    /// Whether something below the root could not be read.
    pub failed: bool,
}

/// What the walk asks of its caller next.
#[derive(Debug, Clone, PartialEq, Eq)]
pub enum WalkStep {
    /// List this directory and hand the listing to `absorb`.
    Visit(String),
    /// Every directory was visited; the subtree holds this many bytes.
    Done(u64),
    /// A directory or an entry could not be read; there is no size.
    Failed,
}

/// An iterative measurement of the regular files under one directory.
pub struct SizeWalk {
    total: u64,
    pending: Vec<String>,
    failed: bool,
}

impl View for SizeWalk {
    type V = WalkState;

    closed spec fn view(&self) -> WalkState {
        WalkState { total: self.total, pending: self.pending@, failed: self.failed }
    }
}

/// The walk before its first step: nothing counted, the root to visit.
pub open spec fn started(root: String) -> WalkState {
    WalkState { total: 0, pending: seq![root], failed: false }
}

/// The state a walk is left in once something could not be read.
pub open spec fn broken() -> WalkState {
    WalkState { total: 0, pending: Seq::empty(), failed: true }
}

/// Whether every entry of `entries` was read.
pub open spec fn all_found(entries: Seq<EntryProbe>) -> bool {
    forall|i: int| 0 <= i < entries.len() ==> #[trigger] entries[i] is Found
}

/// The bytes of the regular files among the entries of one listing, as an
/// unbounded sum. Directories, links and whatever else is no regular file
/// count for nothing, and so do entries that were not read.
pub open spec fn file_bytes(entries: Seq<EntryProbe>) -> nat
    decreases entries.len(),
{
    if entries.len() == 0 {
        0
    } else {
        file_bytes(entries.drop_last()) + match entries.last() {
            EntryProbe::Found(entry) if entry.kind == EntryKind::File => entry.len as nat,
            _ => 0nat,
        }
    }
}

/// The paths of the directories among the entries of one listing, in listing
/// order.
pub open spec fn subdirectories(entries: Seq<EntryProbe>) -> Seq<String>
    decreases entries.len(),
{
    if entries.len() == 0 {
        Seq::empty()
    } else {
        let earlier = subdirectories(entries.drop_last());
        match entries.last() {
            EntryProbe::Found(entry) if entry.kind == EntryKind::Directory => earlier.push(
                entry.path,
            ),
            _ => earlier,
        }
    }
}

/// The walk after it has taken in the listing of a directory it asked for.
///
/// A listing that could not be read, or that holds an entry that could not
/// be read, breaks the walk for good. Otherwise the regular files of the
/// listing are added to the total and its directories are put on the
/// work-list; entries of any other kind are passed over.
pub open spec fn absorbed(state: WalkState, listing: DirListing) -> WalkState {
    if state.failed {
        state
    } else {
        match listing {
            DirListing::Entries(entries) if all_found(entries@) => WalkState {
                total: saturate(state.total + file_bytes(entries@)),
                pending: state.pending + subdirectories(entries@),
                failed: false,
            },
            _ => broken(),
        }
    }
}

/// What the walk asks for in `state`, and the state it is in afterwards.
pub open spec fn stepped(state: WalkState) -> (WalkState, WalkStep) {
    if state.failed {
        (state, WalkStep::Failed)
    } else if state.pending.len() == 0 {
        (state, WalkStep::Done(state.total))
    } else {
        (
            WalkState { pending: state.pending.drop_last(), ..state },
            WalkStep::Visit(state.pending.last()),
        )
    }
}

impl SizeWalk {
    /// Starts measuring the subtree under `root`.
    pub fn new(root: String) -> (walk: SizeWalk)
        ensures
            walk@ == started(root),
    {
        let mut pending: Vec<String> = Vec::new();
        pending.push(root);
        SizeWalk { total: 0, pending, failed: false }
    }

    /// Takes the next directory off the work-list, or tells how the walk
    /// ended.
    pub fn next(&mut self) -> (step: WalkStep)
        ensures
            (final(self)@, step) == stepped(old(self)@),
    {
        if self.failed {
            return WalkStep::Failed;
        }
        match self.pending.pop() {
            Some(dir) => WalkStep::Visit(dir),
            None => WalkStep::Done(self.total),
        }
    }

    /// Takes in the listing of the directory that `next` asked for.
    pub fn absorb(&mut self, listing: &DirListing)
        ensures
            final(self)@ == absorbed(old(self)@, *listing),
    {
        if self.failed {
            return ;
        }
        match listing {
            DirListing::Unreadable => {
                self.fail();
            },
            DirListing::Entries(entries) => {
                let mut i: usize = 0;
                while i < entries.len()
                    invariant
                        i <= entries.len(),
                        !self.failed,
                        !old(self).failed,
                        *listing == DirListing::Entries(*entries),
                        all_found(entries@.take(i as int)),
                        self.total == saturate(
                            old(self).total + file_bytes(entries@.take(i as int)),
                        ),
                        self.pending@ == old(self).pending@ + subdirectories(
                            entries@.take(i as int),
                        ),
                    decreases entries.len() - i,
                {
                    proof {
                        assert(entries@.take(i + 1).drop_last() == entries@.take(i as int));
                    }
                    match &entries[i] {
                        EntryProbe::Unreadable => {
                            self.fail();
                            return ;
                        },
                        EntryProbe::Found(entry) => {
                            match entry.kind {
                                EntryKind::Directory => {
                                    self.pending.push(entry.path.clone());
                                },
                                EntryKind::File => {
                                    self.total = self.total.saturating_add(entry.len);
                                },
                                EntryKind::Other => {},
                            }
                        },
                    }
                    i += 1;
                }
                proof {
                    assert(entries@.take(entries.len() as int) == entries@);
                }
            },
        }
    }

    /// Gives the walk up: nothing counted, nothing left to visit.
    fn fail(&mut self)
        ensures
            final(self)@ == broken(),
    {
        self.total = 0;
        self.pending = Vec::new();
        self.failed = true;
    }
}

} // verus!
