//! What holds of every sweep, proved from the definitions in `sweep`.

use vstd::prelude::*;
use crate::listing::EntryProbe;
use crate::report::{saturate, CleanupReport};
use crate::retention::{cutoff, RetentionWindow, Timestamp};
use crate::sweep::{
    is_due, removal_of, removed_bytes, removed_count, summary, sweep_plan, PlannedRemoval,
    RemovalOutcome,
};

verus! {

/// The plan names exactly the entries that are due, each once and in listing
/// order, and carries each entry's own path, kind and length.
pub proof fn lemma_plan_lists_due_entries(
    entries: Seq<EntryProbe>,
    now: Timestamp,
    retention: RetentionWindow,
)
    requires
        entries.len() <= usize::MAX,
    ensures
        forall|k: int|
            0 <= k < sweep_plan(entries, now, retention).len() ==> {
                let planned = #[trigger] sweep_plan(entries, now, retention)[k];
                &&& 0 <= planned.index < entries.len()
                &&& is_due(entries[planned.index as int], now, retention)
                &&& planned == removal_of(
                    planned.index as int,
                    entries[planned.index as int]->Found_0,
                )
            },
        forall|k: int, l: int|
            0 <= k < l < sweep_plan(entries, now, retention).len() ==> (#[trigger] sweep_plan(
                entries,
                now,
                retention,
            )[k]).index < (#[trigger] sweep_plan(entries, now, retention)[l]).index,
        forall|i: int|
            0 <= i < entries.len() && is_due(#[trigger] entries[i], now, retention) ==> exists|
                k: int,
            |
                0 <= k < sweep_plan(entries, now, retention).len() && (#[trigger] sweep_plan(
                    entries,
                    now,
                    retention,
                )[k]).index == i,
    decreases entries.len(),
{
    if entries.len() > 0 {
        let head = entries.drop_last();
        let earlier = sweep_plan(head, now, retention);
        let plan = sweep_plan(entries, now, retention);
        let last = entries.len() - 1;
        lemma_plan_lists_due_entries(head, now, retention);
        assert forall|i: int|
            0 <= i < entries.len() && is_due(#[trigger] entries[i], now, retention) implies exists|
            k: int,
        | 0 <= k < plan.len() && (#[trigger] plan[k]).index == i by {
            if i < last {
                assert(is_due(head[i], now, retention));
                let k = choose|k: int| 0 <= k < earlier.len() && (#[trigger] earlier[k]).index == i;
                assert(plan[k].index == i);
            } else {
                assert(plan[plan.len() - 1].index == i);
            }
        }
    }
}

/// An entry modified after the cutoff is named by no removal: it survives
/// the sweep.
pub proof fn lemma_fresh_entry_survives(
    entries: Seq<EntryProbe>,
    now: Timestamp,
    retention: RetentionWindow,
    i: int,
)
    requires
        entries.len() <= usize::MAX,
        0 <= i < entries.len(),
        entries[i] is Found,
        entries[i]->Found_0.modified is Some,
        entries[i]->Found_0.modified->Some_0.unix_nanos > cutoff(now, retention),
    ensures
        forall|k: int|
            0 <= k < sweep_plan(entries, now, retention).len() ==> (#[trigger] sweep_plan(
                entries,
                now,
                retention,
            )[k]).index != i,
{
    lemma_plan_lists_due_entries(entries, now, retention);
}

/// An entry that could not be read is named by no removal: the sweep passes
/// over it.
pub proof fn lemma_unreadable_entry_is_skipped(
    entries: Seq<EntryProbe>,
    now: Timestamp,
    retention: RetentionWindow,
    i: int,
)
    requires
        entries.len() <= usize::MAX,
        0 <= i < entries.len(),
        entries[i] is Unreadable,
    ensures
        forall|k: int|
            0 <= k < sweep_plan(entries, now, retention).len() ==> (#[trigger] sweep_plan(
                entries,
                now,
                retention,
            )[k]).index != i,
{
    lemma_plan_lists_due_entries(entries, now, retention);
}

/// A removal that went through raises the count of cleaned entries by one
/// and the reclaimed bytes by the entry's size, saturating at `u64::MAX`.
pub proof fn lemma_removal_adds_to_report(outcomes: Seq<RemovalOutcome>, next: RemovalOutcome)
    requires
        outcomes.len() < usize::MAX,
        next.removed,
    ensures
        removed_bytes(outcomes.push(next)) == removed_bytes(outcomes) + next.size,
        summary(outcomes.push(next)).cleaned_entries == summary(outcomes).cleaned_entries + 1,
        summary(outcomes.push(next)).reclaimed_bytes == saturate(
            summary(outcomes).reclaimed_bytes + next.size,
        ),
{
    assert(outcomes.push(next).drop_last() == outcomes);
    crate::sweep::lemma_removed_count_bounded(outcomes);
}

/// A removal that failed leaves the report as it was.
pub proof fn lemma_failed_removal_changes_nothing(
    outcomes: Seq<RemovalOutcome>,
    next: RemovalOutcome,
)
    requires
        !next.removed,
    ensures
        summary(outcomes.push(next)) == summary(outcomes),
{
    assert(outcomes.push(next).drop_last() == outcomes);
}

/// Within one sweep the reclaimed bytes never go down as outcomes come in.
pub proof fn lemma_reclaimed_bytes_never_decrease(
    outcomes: Seq<RemovalOutcome>,
    i: int,
    j: int,
)
    requires
        0 <= i <= j <= outcomes.len(),
    ensures
        removed_bytes(outcomes.take(i)) <= removed_bytes(outcomes.take(j)),
        removed_count(outcomes.take(i)) <= removed_count(outcomes.take(j)),
        summary(outcomes.take(i)).reclaimed_bytes <= summary(outcomes.take(j)).reclaimed_bytes,
    decreases j - i,
{
    if i < j {
        lemma_reclaimed_bytes_never_decrease(outcomes, i, j - 1);
        assert(outcomes.take(j).drop_last() == outcomes.take(j - 1));
    }
}

/// A workspace in which no entry is due yields no removal, and a sweep
/// without removals reports nothing cleaned and nothing reclaimed.
pub proof fn lemma_clean_workspace_reports_nothing(
    entries: Seq<EntryProbe>,
    now: Timestamp,
    retention: RetentionWindow,
)
    requires
        forall|i: int| 0 <= i < entries.len() ==> !is_due(#[trigger] entries[i], now, retention),
    ensures
        sweep_plan(entries, now, retention) == Seq::<PlannedRemoval>::empty(),
        summary(Seq::<RemovalOutcome>::empty()) == CleanupReport::spec_empty(),
    decreases entries.len(),
{
    if entries.len() > 0 {
        let head = entries.drop_last();
        assert forall|i: int| 0 <= i < head.len() implies !is_due(
            #[trigger] head[i],
            now,
            retention,
        ) by {
            assert(head[i] == entries[i]);
        }
        lemma_clean_workspace_reports_nothing(head, now, retention);
    }
}

/// The entries still in the workspace after a sweep of `entries` whose
/// removals, taken in plan order, ended as `outcomes`: every entry but those
/// whose removal went through.
pub open spec fn survivors(
    entries: Seq<EntryProbe>,
    now: Timestamp,
    retention: RetentionWindow,
    outcomes: Seq<RemovalOutcome>,
) -> Seq<EntryProbe>
    decreases entries.len(),
{
    if entries.len() == 0 {
        Seq::empty()
    } else {
        let head = entries.drop_last();
        let kept = survivors(head, now, retention, outcomes);
        let slot = sweep_plan(head, now, retention).len() as int;
        if is_due(entries.last(), now, retention) && slot < outcomes.len()
            && outcomes[slot].removed {
            kept
        } else {
            kept.push(entries.last())
        }
    }
}

/// Sweeping twice in a row: once every planned removal has gone through, a
/// second sweep at the same instant finds nothing to remove.
pub proof fn lemma_second_sweep_finds_nothing(
    entries: Seq<EntryProbe>,
    now: Timestamp,
    retention: RetentionWindow,
    outcomes: Seq<RemovalOutcome>,
)
    requires
        outcomes.len() >= sweep_plan(entries, now, retention).len(),
        forall|k: int| 0 <= k < outcomes.len() ==> (#[trigger] outcomes[k]).removed,
    ensures
        sweep_plan(survivors(entries, now, retention, outcomes), now, retention) == Seq::<
            PlannedRemoval,
        >::empty(),
        summary(Seq::<RemovalOutcome>::empty()) == CleanupReport::spec_empty(),
{
    lemma_survivors_are_not_due(entries, now, retention, outcomes);
    lemma_clean_workspace_reports_nothing(
        survivors(entries, now, retention, outcomes),
        now,
        retention,
    );
}

/// After a sweep whose removals all went through, no surviving entry is due.
proof fn lemma_survivors_are_not_due(
    entries: Seq<EntryProbe>,
    now: Timestamp,
    retention: RetentionWindow,
    outcomes: Seq<RemovalOutcome>,
)
    requires
        outcomes.len() >= sweep_plan(entries, now, retention).len(),
        forall|k: int| 0 <= k < outcomes.len() ==> (#[trigger] outcomes[k]).removed,
    ensures
        forall|i: int|
            0 <= i < survivors(entries, now, retention, outcomes).len() ==> !is_due(
                #[trigger] survivors(entries, now, retention, outcomes)[i],
                now,
                retention,
            ),
    decreases entries.len(),
{
    if entries.len() > 0 {
        let head = entries.drop_last();
        let kept = survivors(head, now, retention, outcomes);
        let left = survivors(entries, now, retention, outcomes);
        lemma_survivors_are_not_due(head, now, retention, outcomes);
        if is_due(entries.last(), now, retention) {
            // The last entry was planned, so its removal went through.
            assert(left == kept);
        } else {
            assert forall|i: int| 0 <= i < left.len() implies !is_due(
                #[trigger] left[i],
                now,
                retention,
            ) by {
                if i < kept.len() {
                    assert(left[i] == kept[i]);
                }
            }
        }
    }
}

} // verus!
