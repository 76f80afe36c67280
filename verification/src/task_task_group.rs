//! The group-task relation: a pure association table.

use vstd::prelude::*;

use crate::storage::{
    children_of, collect_children, has_group_id, has_pair, has_task_id, insert_pair,
    insert_pair_in, lemma_wf_after_tg_pair_insert, lemma_wf_after_tg_pair_remove, remove_pair,
    remove_pair_in, Storage,
};
use crate::StoreError;

verus! {

/// Upserts the (group id, task id) pair. The call is idempotent: upserting a
/// pair that is already present changes nothing. Both ids must reference
/// existing rows; a missing end is reported as `NotFound` and nothing is
/// written.
pub fn save_rela_task_task_group(store: &mut Storage, task_group_id: u128, task_id: u128) -> (r:
    Result<(), StoreError>)
    requires
        old(store).wf(),
    ensures
        final(store).wf(),
        r is Ok <==> has_group_id(old(store).task_groups@, task_group_id) && has_task_id(
            old(store).tasks@,
            task_id,
        ),
        r is Ok ==> final(store).rela_task_task_group@ == insert_pair(
            old(store).rela_task_task_group@,
            task_group_id,
            task_id,
        ) && has_pair(final(store).rela_task_task_group@, task_group_id, task_id),
        r is Err ==> r == Err::<(), StoreError>(StoreError::NotFound) && *final(store) == *old(
            store,
        ),
        final(store).tasks@ == old(store).tasks@,
        final(store).subtasks@ == old(store).subtasks@,
        final(store).task_groups@ == old(store).task_groups@,
        final(store).rela_task_subtask@ == old(store).rela_task_subtask@,
{
    if crate::storage::find_group_index(&store.task_groups, task_group_id).is_none() {
        return Err(StoreError::NotFound);
    }
    if crate::storage::find_task_index(&store.tasks, task_id).is_none() {
        return Err(StoreError::NotFound);
    }
    let ghost pre = *store;
    proof {
        crate::storage::lemma_insert_pair(store.rela_task_task_group@, task_group_id, task_id);
    }
    insert_pair_in(&mut store.rela_task_task_group, task_group_id, task_id);
    proof {
        lemma_wf_after_tg_pair_insert(pre, *store, task_group_id, task_id);
    }
    Ok(())
}

/// The task ids that are members of a group, unordered (membership order is
/// not tracked), in table order.
pub fn get_task_id_from_task_group_id(store: &Storage, task_group_id: u128) -> (r: Vec<u128>)
    ensures
        r@ == children_of(store.rela_task_task_group@, task_group_id),
{
    collect_children(&store.rela_task_task_group, task_group_id)
}

/// Removes the (group id, task id) pair. The call is idempotent: removing an
/// absent pair is a no-op.
pub fn remove_rela_task_task_group(store: &mut Storage, task_group_id: u128, task_id: u128)
    requires
        old(store).wf(),
    ensures
        final(store).wf(),
        final(store).rela_task_task_group@ == remove_pair(
            old(store).rela_task_task_group@,
            task_group_id,
            task_id,
        ),
        !has_pair(final(store).rela_task_task_group@, task_group_id, task_id),
        final(store).tasks@ == old(store).tasks@,
        final(store).subtasks@ == old(store).subtasks@,
        final(store).task_groups@ == old(store).task_groups@,
        final(store).rela_task_subtask@ == old(store).rela_task_subtask@,
{
    let ghost pre = *store;
    proof {
        crate::storage::lemma_remove_pair(store.rela_task_task_group@, task_group_id, task_id);
    }
    remove_pair_in(&mut store.rela_task_task_group, task_group_id, task_id);
    proof {
        lemma_wf_after_tg_pair_remove(pre, *store, task_group_id, task_id);
    }
}

} // verus!
