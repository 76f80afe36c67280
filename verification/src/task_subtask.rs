//! The task-subtask relation: a pure association table.

use vstd::prelude::*;

use crate::storage::{
    children_of, collect_children, has_pair, has_subtask_id, has_task_id, insert_pair,
    insert_pair_in, lemma_wf_after_ts_pair_insert, lemma_wf_after_ts_pair_remove, remove_pair,
    remove_pair_in, Storage,
};
use crate::StoreError;

verus! {

/// Upserts the (task id, subtask id) pair. The call is idempotent: upserting
/// a pair that is already present changes nothing. Both ids must reference
/// existing rows; a missing end is reported as `NotFound` and nothing is
/// written.
pub fn save_rela_task_subtask(store: &mut Storage, task_id: u128, subtask_id: u128) -> (r: Result<
    (),
    StoreError,
>)
    requires
        old(store).wf(),
    ensures
        final(store).wf(),
        r is Ok <==> has_task_id(old(store).tasks@, task_id) && has_subtask_id(
            old(store).subtasks@,
            subtask_id,
        ),
        r is Ok ==> final(store).rela_task_subtask@ == insert_pair(
            old(store).rela_task_subtask@,
            task_id,
            subtask_id,
        ) && has_pair(final(store).rela_task_subtask@, task_id, subtask_id),
        r is Err ==> r == Err::<(), StoreError>(StoreError::NotFound) && *final(store) == *old(
            store,
        ),
        final(store).tasks@ == old(store).tasks@,
        final(store).subtasks@ == old(store).subtasks@,
        final(store).task_groups@ == old(store).task_groups@,
        final(store).rela_task_task_group@ == old(store).rela_task_task_group@,
{
    if crate::storage::find_task_index(&store.tasks, task_id).is_none() {
        return Err(StoreError::NotFound);
    }
    if crate::storage::find_subtask_index(&store.subtasks, subtask_id).is_none() {
        return Err(StoreError::NotFound);
    }
    let ghost pre = *store;
    proof {
        crate::storage::lemma_insert_pair(store.rela_task_subtask@, task_id, subtask_id);
    }
    insert_pair_in(&mut store.rela_task_subtask, task_id, subtask_id);
    proof {
        lemma_wf_after_ts_pair_insert(pre, *store, task_id, subtask_id);
    }
    Ok(())
}

/// The subtask ids related to a task, unordered (ordering belongs to the
/// subtasks themselves), in table order.
pub fn get_subtask_ids_for_task(store: &Storage, task_id: u128) -> (r: Vec<u128>)
    ensures
        r@ == children_of(store.rela_task_subtask@, task_id),
{
    collect_children(&store.rela_task_subtask, task_id)
}

/// Removes the (task id, subtask id) pair. The call is idempotent: removing
/// an absent pair is a no-op.
pub fn remove_rela_task_subtask(store: &mut Storage, task_id: u128, subtask_id: u128)
    requires
        old(store).wf(),
    ensures
        final(store).wf(),
        final(store).rela_task_subtask@ == remove_pair(
            old(store).rela_task_subtask@,
            task_id,
            subtask_id,
        ),
        !has_pair(final(store).rela_task_subtask@, task_id, subtask_id),
        final(store).tasks@ == old(store).tasks@,
        final(store).subtasks@ == old(store).subtasks@,
        final(store).task_groups@ == old(store).task_groups@,
        final(store).rela_task_task_group@ == old(store).rela_task_task_group@,
{
    let ghost pre = *store;
    proof {
        crate::storage::lemma_remove_pair(store.rela_task_subtask@, task_id, subtask_id);
    }
    remove_pair_in(&mut store.rela_task_subtask, task_id, subtask_id);
    proof {
        lemma_wf_after_ts_pair_remove(pre, *store, task_id, subtask_id);
    }
}

} // verus!
