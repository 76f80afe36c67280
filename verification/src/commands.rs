//! The command layer: the in-process call boundary exposed to a UI. Each
//! command performs its writes and answers with a refreshed listing.
//!
//! Commands read the wall clock and draw fresh ids, so their contracts name
//! those values existentially; the store operations they build on take the
//! instant as an argument and are exact in it.

use vstd::prelude::*;

use crate::clock::current_instant;
use crate::group_store::{
    all_members_exist, attach_members, group_listing_of, load_all as load_all_groups,
    save_task_group,
};
use crate::storage::{
    group_row_of, has_group_id, has_task_id, insert_pair, task_row_of, upsert_group_row,
    upsert_task_row, GroupRow, Storage, TaskRow,
};
use crate::subtask::Subtask;
use crate::task::Task;
use crate::task_group::TaskGroup;
use crate::task_store::{cascade_subtasks, load_all, save_task, task_listing_of};
use crate::task_task_group::save_rela_task_task_group;
use crate::StoreError;

verus! {

/// The effect of saving a task `t0` at instant `now` on the store's tables.
pub open spec fn saved_task_effect(pre: Storage, post: Storage, t0: Task, now: i64) -> bool {
    &&& post.tasks@ == upsert_task_row(pre.tasks@, task_row_of(t0.refreshed(now)))
    &&& post.subtasks@ == cascade_subtasks(
        pre.subtasks@,
        pre.rela_task_subtask@,
        t0.refreshed_subtasks(now),
        t0.id,
    ).0
    &&& post.rela_task_subtask@ == cascade_subtasks(
        pre.subtasks@,
        pre.rela_task_subtask@,
        t0.refreshed_subtasks(now),
        t0.id,
    ).1
    &&& post.task_groups@ == pre.task_groups@
    &&& post.rela_task_task_group@ == pre.rela_task_task_group@
}

/// The effect of saving a group `g0` at instant `now` on the store's tables.
pub open spec fn saved_group_effect(pre: Storage, post: Storage, g0: TaskGroup, now: i64) -> bool {
    &&& post.task_groups@ == upsert_group_row(pre.task_groups@, group_row_of(g0.refreshed(now)))
    &&& post.rela_task_task_group@ == attach_members(
        pre.rela_task_task_group@,
        g0.id,
        g0.tasks@,
    )
    &&& post.tasks@ == pre.tasks@
    &&& post.subtasks@ == pre.subtasks@
    &&& post.rela_task_subtask@ == pre.rela_task_subtask@
}

/// The row that creating a task leaves in the task table: the given fields,
/// progress 0, not completed, not deleted, a fresh nonzero id, and an update
/// instant at or above the creation instant.
pub open spec fn created_task_row(
    row: TaskRow,
    description: String,
    details: Option<String>,
    start_datetime: Option<i64>,
    end_datetime: Option<i64>,
) -> bool {
    &&& row.id != 0
    &&& !row.completed
    &&& row.description == description
    &&& row.details == details
    &&& row.start_datetime == start_datetime
    &&& row.end_datetime == end_datetime
    &&& row.progress == 0
    &&& row.deleted_at is None
    &&& match row.updated_at {
        Some(u) => u >= row.created_at,
        None => false,
    }
}

/// Every task, freshly listed.
pub fn get_tasks(store: &Storage) -> (r: Result<Vec<Task>, StoreError>)
    ensures
        r is Ok,
        (r matches Ok(v) ==> task_listing_of(*store, v@)),
{
    Ok(load_all(store))
}

/// Creates a task from the given fields, saves it, attaches it to a group
/// when one is named, and answers with the refreshed task list. A named
/// group that does not exist is reported as `NotFound`. A drawn id that
/// already names a stored row is refused as `ConstraintViolation` rather
/// than silently replacing that row, so an id is never reused for an
/// existing record. On either error nothing is written.
pub fn create_task(
    store: &mut Storage,
    description: String,
    details: Option<String>,
    start_datetime: Option<i64>,
    end_datetime: Option<i64>,
    group_id: Option<u128>,
) -> (r: Result<Vec<Task>, StoreError>)
    requires
        old(store).wf(),
    ensures
        final(store).wf(),
        r == Err::<Vec<Task>, StoreError>(StoreError::NotFound) <==> (match group_id {
            Some(g) => !has_group_id(old(store).task_groups@, g),
            None => false,
        }),
        r is Err ==> (r == Err::<Vec<Task>, StoreError>(StoreError::NotFound) || r == Err::<
            Vec<Task>,
            StoreError,
        >(StoreError::ConstraintViolation)) && *final(store) == *old(store),
        r == Err::<Vec<Task>, StoreError>(StoreError::ConstraintViolation) ==> old(
            store,
        ).tasks@.len() > 0,
        r is Ok ==> exists|row: TaskRow|
            #![auto]
            created_task_row(row, description, details, start_datetime, end_datetime)
                && !has_task_id(old(store).tasks@, row.id)
                && final(store).tasks@ == old(store).tasks@.push(row)
                && final(store).rela_task_task_group@ == (match group_id {
                Some(g) => insert_pair(old(store).rela_task_task_group@, g, row.id),
                None => old(store).rela_task_task_group@,
            }),
        final(store).subtasks@ == old(store).subtasks@,
        final(store).rela_task_subtask@ == old(store).rela_task_subtask@,
        final(store).task_groups@ == old(store).task_groups@,
        (r matches Ok(v) ==> task_listing_of(*final(store), v@)),
{
    if let Some(g) = group_id {
        if crate::storage::find_group_index(&store.task_groups, g).is_none() {
            return Err(StoreError::NotFound);
        }
    }

    let mut t = Task::new();
    t.description = description;
    t.details = details;
    t.start_datetime = start_datetime;
    t.end_datetime = end_datetime;

    if crate::storage::find_task_index(&store.tasks, t.id).is_some() {
        return Err(StoreError::ConstraintViolation);
    }

    let ghost t0 = t;
    let now = current_instant();
    let save_result = save_task(store, &mut t, now);
    proof {
        assert(t0.subtasks@.map_values(|s: Subtask| s.refreshed(now)) =~= Seq::<
            Subtask,
        >::empty());
        assert(cascade_subtasks(
            old(store).subtasks@,
            old(store).rela_task_subtask@,
            Seq::<Subtask>::empty(),
            t0.id,
        ) == (old(store).subtasks@, old(store).rela_task_subtask@));
    }
    if let Err(e) = save_result {
        return Err(e);
    }

    if let Some(g) = group_id {
        proof {
            crate::storage::lemma_upsert_task_row(old(store).tasks@, task_row_of(t));
        }
        let attach_result = save_rela_task_task_group(store, g, t.id);
        if let Err(e) = attach_result {
            return Err(e);
        }
    }
    let ghost row = task_row_of(t0.refreshed(now));
    proof {
        assert(task_row_of(t) == row);
        assert(created_task_row(row, description, details, start_datetime, end_datetime));
    }
    Ok(load_all(store))
}

/// Replaces a task record, subtasks included, and answers with the refreshed
/// task list.
pub fn update_task(store: &mut Storage, task: Task) -> (r: Result<Vec<Task>, StoreError>)
    requires
        old(store).wf(),
    ensures
        final(store).wf(),
        r is Ok,
        exists|now: i64| #[trigger] saved_task_effect(*old(store), *final(store), task, now),
        (r matches Ok(v) ==> task_listing_of(*final(store), v@)),
{
    let ghost task0 = task;
    let mut t = task;
    let now = current_instant();
    let save_result = save_task(store, &mut t, now);
    if let Err(e) = save_result {
        return Err(e);
    }
    proof {
        assert(saved_task_effect(*old(store), *store, task0, now));
    }
    Ok(load_all(store))
}

/// Soft-deletes a task: its delete instant is set and saved, so the task
/// leaves every listing while its row and its subtasks remain stored. The
/// refreshed task list is answered.
pub fn delete_task(store: &mut Storage, task: Task) -> (r: Result<Vec<Task>, StoreError>)
    requires
        old(store).wf(),
    ensures
        final(store).wf(),
        r is Ok,
        exists|d: i64, now: i64|
            #[trigger] saved_task_effect(*old(store), *final(store), task.marked_deleted(d), now),
        (r matches Ok(v) ==> task_listing_of(*final(store), v@)),
{
    let ghost task0 = task;
    let mut t = task;
    t.set_deleted();
    let ghost d = choose|d: i64|
        crate::clock::encodable_instant(d) && t == task0.marked_deleted(d);
    let now = current_instant();
    let save_result = save_task(store, &mut t, now);
    if let Err(e) = save_result {
        return Err(e);
    }
    proof {
        assert(saved_task_effect(*old(store), *store, task0.marked_deleted(d), now));
    }
    Ok(load_all(store))
}

/// Every group, freshly listed.
pub fn get_task_groups(store: &Storage) -> (r: Result<Vec<TaskGroup>, StoreError>)
    ensures
        r is Ok,
        (r matches Ok(v) ==> group_listing_of(*store, v@)),
{
    Ok(load_all_groups(store))
}

/// Creates a group with the given name, saves it, and answers with the
/// refreshed group list. A drawn id that already names a stored row is
/// refused as `ConstraintViolation` rather than silently replacing that row,
/// so an id is never reused for an existing record; nothing is then written.
pub fn create_task_group(store: &mut Storage, name: String) -> (r: Result<
    Vec<TaskGroup>,
    StoreError,
>)
    requires
        old(store).wf(),
    ensures
        final(store).wf(),
        r is Err ==> r == Err::<Vec<TaskGroup>, StoreError>(StoreError::ConstraintViolation)
            && *final(store) == *old(store) && old(store).task_groups@.len() > 0,
        r is Ok ==> exists|row: GroupRow|
            #![auto]
            row.id != 0 && row.name == name && row.deleted_at is None && (match row.updated_at {
                Some(u) => u >= row.created_at,
                None => false,
            }) && !has_group_id(old(store).task_groups@, row.id) && final(store).task_groups@
                == old(store).task_groups@.push(row),
        final(store).tasks@ == old(store).tasks@,
        final(store).subtasks@ == old(store).subtasks@,
        final(store).rela_task_subtask@ == old(store).rela_task_subtask@,
        final(store).rela_task_task_group@ == old(store).rela_task_task_group@,
        (r matches Ok(v) ==> group_listing_of(*final(store), v@)),
{
    let mut g = TaskGroup::create(name);

    if crate::storage::find_group_index(&store.task_groups, g.id).is_some() {
        return Err(StoreError::ConstraintViolation);
    }

    let ghost g0 = g;
    let now = current_instant();
    let save_result = save_task_group(store, &mut g, now);
    if let Err(e) = save_result {
        return Err(e);
    }
    let ghost row = group_row_of(g0.refreshed(now));
    proof {
        assert(g0.tasks@ =~= Seq::<u128>::empty());
        assert(attach_members(old(store).rela_task_task_group@, g0.id, g0.tasks@) == old(
            store,
        ).rela_task_task_group@);
        assert(final(store).task_groups@ == old(store).task_groups@.push(row));
    }
    Ok(load_all_groups(store))
}

/// Saves a group record, membership included, and answers with the refreshed
/// group list. An attached task id with no stored task is reported as
/// `NotFound` and nothing is written.
pub fn update_task_group(store: &mut Storage, group: TaskGroup) -> (r: Result<
    Vec<TaskGroup>,
    StoreError,
>)
    requires
        old(store).wf(),
    ensures
        final(store).wf(),
        r is Ok <==> all_members_exist(old(store).tasks@, group.tasks@),
        r is Err ==> r == Err::<Vec<TaskGroup>, StoreError>(StoreError::NotFound) && *final(store)
            == *old(store),
        r is Ok ==> exists|now: i64|
            #[trigger] saved_group_effect(*old(store), *final(store), group, now),
        (r matches Ok(v) ==> group_listing_of(*final(store), v@)),
{
    let ghost group0 = group;
    let mut g = group;
    let now = current_instant();
    let save_result = save_task_group(store, &mut g, now);
    if let Err(e) = save_result {
        return Err(e);
    }
    proof {
        assert(saved_group_effect(*old(store), *store, group0, now));
    }
    Ok(load_all_groups(store))
}

/// Soft-deletes a group: its delete instant is set and saved, so the group
/// leaves every listing while its row and its relations remain stored. The
/// refreshed group list is answered.
pub fn delete_task_group(store: &mut Storage, group: TaskGroup) -> (r: Result<
    Vec<TaskGroup>,
    StoreError,
>)
    requires
        old(store).wf(),
    ensures
        final(store).wf(),
        r is Ok <==> all_members_exist(old(store).tasks@, group.tasks@),
        r is Err ==> r == Err::<Vec<TaskGroup>, StoreError>(StoreError::NotFound) && *final(store)
            == *old(store),
        r is Ok ==> exists|d: i64, now: i64|
            #[trigger] saved_group_effect(
                *old(store),
                *final(store),
                group.marked_deleted(d),
                now,
            ),
        (r matches Ok(v) ==> group_listing_of(*final(store), v@)),
{
    let ghost group0 = group;
    let mut g = group;
    g.set_deleted();
    let ghost d = choose|d: i64|
        crate::clock::encodable_instant(d) && g == group0.marked_deleted(d);
    let now = current_instant();
    let save_result = save_task_group(store, &mut g, now);
    if let Err(e) = save_result {
        return Err(e);
    }
    proof {
        assert(saved_group_effect(*old(store), *store, group0.marked_deleted(d), now));
    }
    Ok(load_all_groups(store))
}

} // verus!
