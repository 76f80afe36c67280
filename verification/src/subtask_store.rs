//! The subtask store: owns subtask rows in the storage handle.

use vstd::prelude::*;

use crate::storage::{
    has_pair, upsert_subtask_row, upsert_subtask_in, Relation, Storage,
};
use crate::subtask::Subtask;
use crate::StoreError;

verus! {

broadcast use vstd::seq_lib::group_to_multiset_ensures;

/// The deterministic total order of a task's subtasks: ascending order
/// index, ties broken by id.
pub open spec fn subtask_le(a: Subtask, b: Subtask) -> bool {
    a.order < b.order || (a.order == b.order && a.id <= b.id)
}

pub open spec fn sorted_subtasks(s: Seq<Subtask>) -> bool {
    forall|i: int, j: int| 0 <= i < j < s.len() ==> subtask_le(s[i], s[j])
}

/// Whether a subtask is not soft-deleted.
pub open spec fn live_subtask_pred() -> spec_fn(Subtask) -> bool {
    |s: Subtask| s.deleted_at is None
}

/// Whether a subtask belongs in a load for `task_id`: related and not
/// soft-deleted.
pub open spec fn related_live(rels: Seq<Relation>, task_id: u128) -> spec_fn(Subtask) -> bool {
    |s: Subtask| s.deleted_at is None && has_pair(rels, task_id, s.id)
}

/// The live subtasks related to a task, in table order.
pub open spec fn live_subtasks_of(store: Storage, task_id: u128) -> Seq<Subtask> {
    store.subtasks@.filter(related_live(store.rela_task_subtask@, task_id))
}

/// What a subtask load for a task returns: exactly the live related
/// subtasks, sorted ascending by order index with ties broken by id.
pub open spec fn subtask_listing_of(store: Storage, task_id: u128, r: Seq<Subtask>) -> bool {
    r.to_multiset() == live_subtasks_of(store, task_id).to_multiset() && sorted_subtasks(r)
}

fn subtask_le_exec(a: &Subtask, b: &Subtask) -> (r: bool)
    ensures
        r == subtask_le(*a, *b),
{
    a.order < b.order || (a.order == b.order && a.id <= b.id)
}

/// Sorts subtasks ascending by order index, ties broken by id; the result
/// holds exactly the given subtasks.
pub fn sort_subtasks(input: Vec<Subtask>) -> (r: Vec<Subtask>)
    ensures
        r@.to_multiset() == input@.to_multiset(),
        sorted_subtasks(r@),
{
    let mut out: Vec<Subtask> = Vec::new();
    let mut i: usize = 0;
    while i < input.len()
        invariant
            i <= input@.len(),
            out@.to_multiset() == input@.take(i as int).to_multiset(),
            sorted_subtasks(out@),
        decreases input@.len() - i,
    {
        let x = input[i].duplicate();
        let mut p: usize = 0;
        while p < out.len() && subtask_le_exec(&out[p], &x)
            invariant
                p <= out@.len(),
                forall|k: int| 0 <= k < p ==> subtask_le(out@[k], x),
            decreases out@.len() - p,
        {
            p = p + 1;
        }
        let ghost prev = out@;
        out.insert(p, x);
        proof {
            assert(input@.take(i + 1 as int).drop_last() == input@.take(i as int));
            assert(input@.take(i + 1 as int).last() == input@[i as int]);
            assert(input@.take(i + 1 as int) == input@.take(i as int).push(input@[i as int]));
            assert forall|a: int, b: int| 0 <= a < b < out@.len() implies subtask_le(
                out@[a],
                out@[b],
            ) by {
                let pi = p as int;
                if b < pi {
                    assert(out@[a] == prev[a] && out@[b] == prev[b]);
                } else if a > pi {
                    assert(out@[a] == prev[a - 1] && out@[b] == prev[b - 1]);
                } else if a < pi && b == pi {
                    assert(out@[a] == prev[a] && out@[b] == x);
                } else if a == pi && b > pi {
                    assert(out@[a] == x && out@[b] == prev[b - 1]);
                    if pi < prev.len() {
                        assert(!subtask_le(prev[pi], x));
                        assert(subtask_le(x, prev[pi]));
                        if b - 1 > pi {
                            assert(subtask_le(prev[pi], prev[b - 1]));
                        }
                    }
                } else if a < pi && b > pi {
                    assert(out@[a] == prev[a] && out@[b] == prev[b - 1]);
                }
            }
        }
        i = i + 1;
    }
    proof {
        assert(input@.take(input@.len() as int) == input@);
    }
    out
}

impl Subtask {
    /// Upserts the subtask by id and refreshes its update instant. Only the
    /// subtask table changes; relation rows are managed by the task store.
    pub fn save(&mut self, store: &mut Storage, now: i64) -> (r: Result<(), StoreError>)
        requires
            old(store).wf(),
        ensures
            final(store).wf(),
            r is Ok,
            *final(self) == old(self).refreshed(now),
            final(store).subtasks@ == upsert_subtask_row(old(store).subtasks@, *final(self)),
            final(store).tasks@ == old(store).tasks@,
            final(store).rela_task_subtask@ == old(store).rela_task_subtask@,
            final(store).task_groups@ == old(store).task_groups@,
            final(store).rela_task_task_group@ == old(store).rela_task_task_group@,
    {
        self.refresh_updated_at(now);
        let row = self.duplicate();
        proof {
            crate::storage::lemma_upsert_subtask_row(store.subtasks@, row);
        }
        upsert_subtask_in(&mut store.subtasks, row);
        Ok(())
    }

    /// Sets the delete instant and saves. Relation rows are left intact, so
    /// the subtask stays loadable through its task only until such a load
    /// filters it out, and the row itself remains addressable by id.
    pub fn soft_delete(&mut self, store: &mut Storage, now: i64) -> (r: Result<(), StoreError>)
        requires
            old(store).wf(),
        ensures
            final(store).wf(),
            r is Ok,
            *final(self) == old(self).marked_deleted(now).refreshed(now),
            final(store).subtasks@ == upsert_subtask_row(old(store).subtasks@, *final(self)),
            final(store).tasks@ == old(store).tasks@,
            final(store).rela_task_subtask@ == old(store).rela_task_subtask@,
            final(store).task_groups@ == old(store).task_groups@,
            final(store).rela_task_task_group@ == old(store).rela_task_task_group@,
    {
        self.mark_deleted(now);
        self.save(store, now)
    }

    /// Loads the subtasks related to a task: soft-deleted rows are excluded,
    /// and the result is sorted ascending by order index (ties broken by id)
    /// regardless of the order in which rows were inserted. An empty result
    /// is not an error.
    pub fn load_for_task(store: &Storage, task_id: u128) -> (r: Vec<Subtask>)
        ensures
            subtask_listing_of(*store, task_id, r@),
    {
        let ghost all = store.subtasks@;
        let ghost pred = related_live(store.rela_task_subtask@, task_id);
        let mut picked: Vec<Subtask> = Vec::new();
        let mut i: usize = 0;
        while i < store.subtasks.len()
            invariant
                i <= all.len(),
                store.subtasks@ == all,
                picked@ == all.take(i as int).filter(pred),
                pred == related_live(store.rela_task_subtask@, task_id),
            decreases all.len() - i,
        {
            let s = &store.subtasks[i];
            proof {
                reveal(Seq::filter);
                assert(all.take(i + 1 as int).drop_last() == all.take(i as int));
                assert(all.take(i + 1 as int).last() == all[i as int]);
            }
            if s.deleted_at.is_none() && crate::storage::rel_contains(
                &store.rela_task_subtask,
                task_id,
                s.id,
            ) {
                picked.push(s.duplicate());
            }
            i = i + 1;
        }
        proof {
            assert(all.take(all.len() as int) == all);
        }
        sort_subtasks(picked)
    }
}

} // verus!
