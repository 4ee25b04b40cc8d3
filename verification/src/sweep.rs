//! The retention sweep: which entries of the workspace to remove, and the
//! report folded from what became of each removal.
//!
//! The sweep runs in two verified halves around the caller's file-system
//! work. `plan_sweep` turns a listing into the removals to attempt;
//! `summarize` folds their outcomes into a `CleanupReport`.

use vstd::prelude::*;
use crate::error::HousekeepingError;
use crate::listing::{DirListing, DirectoryEntry, EntryKind, EntryProbe};
use crate::report::{saturate, CleanupReport};
use crate::retention::{is_stale, is_stale_at, RetentionWindow, Timestamp};

verus! {

/// One removal the sweep asks for.
#[derive(Debug, Clone, PartialEq, Eq)]
pub struct PlannedRemoval {
    /// Position of the entry in the listing the plan was made from.
    pub index: usize,
    /// The entry's path.
    pub path: String,
    /// Whether to remove a whole subtree rather than a single file.
    pub is_dir: bool,
    /// The entry's own length in bytes.
    pub len: u64,
}

/// What became of one planned removal.
#[derive(Debug, Clone, Copy, PartialEq, Eq, Structural)]
pub struct RemovalOutcome {
    /// Bytes the entry held.
    pub size: u64,
    /// Whether the entry is gone.
    pub removed: bool,
}

/// Whether the sweep removes the entry behind `probe`. An unreadable entry is
/// never touched.
pub open spec fn is_due(probe: EntryProbe, now: Timestamp, retention: RetentionWindow) -> bool {
    match probe {
        EntryProbe::Unreadable => false,
        EntryProbe::Found(entry) => is_stale_at(entry.modified, now, retention),
    }
}

/// The removal planned for `entry`, found at position `index`.
pub open spec fn removal_of(index: int, entry: DirectoryEntry) -> PlannedRemoval {
    PlannedRemoval {
        index: index as usize,
        path: entry.path,
        is_dir: entry.kind == EntryKind::Directory,
        len: entry.len,
    }
}

/// The removals a sweep of `entries` asks for: one for each entry that is
/// due, in listing order.
pub open spec fn sweep_plan(
    entries: Seq<EntryProbe>,
    now: Timestamp,
    retention: RetentionWindow,
) -> Seq<PlannedRemoval>
    decreases entries.len(),
{
    if entries.len() == 0 {
        Seq::empty()
    } else {
        let earlier = sweep_plan(entries.drop_last(), now, retention);
        match entries.last() {
            EntryProbe::Found(entry) if is_stale_at(entry.modified, now, retention) => earlier.push(
                removal_of(entries.len() - 1, entry),
            ),
            _ => earlier,
        }
    }
}

/// Plans the sweep of a workspace from its listing.
///
/// A listing that could not be read is fatal. An unreadable entry is not: it
/// is left alone and the sweep goes on.
pub fn plan_sweep(listing: &DirListing, now: Timestamp, retention: RetentionWindow) -> (result:
    Result<Vec<PlannedRemoval>, HousekeepingError>)
    ensures
        match *listing {
            DirListing::Unreadable => result == Err::<Vec<PlannedRemoval>, HousekeepingError>(
                HousekeepingError::IoError,
            ),
            DirListing::Entries(entries) => result is Ok && result->Ok_0@ == sweep_plan(
                entries@,
                now,
                retention,
            ),
        },
{
    match listing {
        DirListing::Unreadable => Err(HousekeepingError::IoError),
        DirListing::Entries(entries) => {
            let mut plan: Vec<PlannedRemoval> = Vec::new();
            let mut i: usize = 0;
            while i < entries.len()
                invariant
                    i <= entries.len(),
                    plan@ == sweep_plan(entries@.take(i as int), now, retention),
                decreases entries.len() - i,
            {
                proof {
                    assert(entries@.take(i + 1).drop_last() == entries@.take(i as int));
                }
                match &entries[i] {
                    EntryProbe::Found(entry) => {
                        if is_stale(entry.modified, now, retention) {
                            plan.push(
                                PlannedRemoval {
                                    index: i,
                                    path: entry.path.clone(),
                                    is_dir: entry.kind == EntryKind::Directory,
                                    len: entry.len,
                                },
                            );
                        }
                    },
                    EntryProbe::Unreadable => {},
                }
                i += 1;
            }
            proof {
                assert(entries@.take(entries.len() as int) == entries@);
            }
            Ok(plan)
        },
    }
}

impl PlannedRemoval {
    /// Bytes the removal frees. A directory counts for what was measured
    /// under it, or for nothing where the measurement failed; any other
    /// entry counts for its own length.
    pub open spec fn reclaimable(self, measured: Option<u64>) -> u64 {
        if self.is_dir {
            match measured {
                Some(bytes) => bytes,
                None => 0,
            }
        } else {
            self.len
        }
    }

    /// Records what became of this removal: `measured` is the size found
    /// under a directory before it was removed, if the measurement went
    /// through, and `removed` tells whether the entry is gone.
    pub fn outcome(&self, measured: Option<u64>, removed: bool) -> (outcome: RemovalOutcome)
        ensures
            outcome.size == self.reclaimable(measured),
            outcome.removed == removed,
    {
        let size = if self.is_dir {
            match measured {
                Some(bytes) => bytes,
                None => 0,
            }
        } else {
            self.len
        };
        RemovalOutcome { size, removed }
    }
}

/// How many of `outcomes` are removals that went through.
pub open spec fn removed_count(outcomes: Seq<RemovalOutcome>) -> nat
    decreases outcomes.len(),
{
    if outcomes.len() == 0 {
        0
    } else {
        removed_count(outcomes.drop_last()) + if outcomes.last().removed {
            1nat
        } else {
            0nat
        }
    }
}

/// The bytes freed by the removals among `outcomes` that went through, as an
/// unbounded sum.
pub open spec fn removed_bytes(outcomes: Seq<RemovalOutcome>) -> nat
    decreases outcomes.len(),
{
    if outcomes.len() == 0 {
        0
    } else {
        removed_bytes(outcomes.drop_last()) + if outcomes.last().removed {
            outcomes.last().size as nat
        } else {
            0nat
        }
    }
}

/// The report of a sweep whose removals ended as `outcomes`.
pub open spec fn summary(outcomes: Seq<RemovalOutcome>) -> CleanupReport {
    CleanupReport {
        cleaned_entries: removed_count(outcomes) as usize,
        reclaimed_bytes: saturate(removed_bytes(outcomes) as int),
    }
}

/// No more removals went through than were attempted.
pub proof fn lemma_removed_count_bounded(outcomes: Seq<RemovalOutcome>)
    ensures
        removed_count(outcomes) <= outcomes.len(),
    decreases outcomes.len(),
{
    if outcomes.len() > 0 {
        lemma_removed_count_bounded(outcomes.drop_last());
    }
}

/// Folds the outcomes of a sweep's removals into its report: each removal
/// that went through counts as one entry and adds its size, the sum
/// saturating at `u64::MAX`. A removal that failed leaves the report as it
/// was.
pub fn summarize(outcomes: &Vec<RemovalOutcome>) -> (report: CleanupReport)
    ensures
        report == summary(outcomes@),
        report.cleaned_entries == removed_count(outcomes@),
{
    let mut report = CleanupReport::empty();
    let mut i: usize = 0;
    while i < outcomes.len()
        invariant
            i <= outcomes.len(),
            report.cleaned_entries == removed_count(outcomes@.take(i as int)),
            report.reclaimed_bytes == saturate(removed_bytes(outcomes@.take(i as int)) as int),
        decreases outcomes.len() - i,
    {
        proof {
            assert(outcomes@.take(i + 1).drop_last() == outcomes@.take(i as int));
            lemma_removed_count_bounded(outcomes@.take(i as int));
        }
        if outcomes[i].removed {
            report.cleaned_entries = report.cleaned_entries + 1;
            report.reclaimed_bytes = report.reclaimed_bytes.saturating_add(outcomes[i].size);
        }
        i += 1;
    }
    proof {
        assert(outcomes@.take(outcomes.len() as int) == outcomes@);
    }
    report
}

} // verus!
