//! The task store: owns task rows and cascades saves to the attached
//! subtasks and their relation rows.

use vstd::prelude::*;

use crate::storage::{
    has_task_id, insert_pair, insert_pair_in, lemma_insert_pair, lemma_upsert_subtask_row,
    lemma_upsert_task_row, lemma_wf_after_subtask_upsert, lemma_wf_after_task_upsert,
    lemma_wf_after_ts_pair_insert, task_row_of, upsert_subtask_in, upsert_subtask_row,
    upsert_task_in, upsert_task_row, Relation, Storage, TaskRow,
};
use crate::subtask::Subtask;
use crate::subtask_store::subtask_listing_of;
use crate::task::Task;
use crate::StoreError;

verus! {

/// The effect on the subtask table and the task-subtask relation table of
/// cascading a save of the given subtasks for one task: each subtask is
/// upserted by id, and its relation row to the task is upserted.
pub open spec fn cascade_subtasks(
    table: Seq<Subtask>,
    rels: Seq<Relation>,
    subs: Seq<Subtask>,
    task_id: u128,
) -> (Seq<Subtask>, Seq<Relation>)
    decreases subs.len(),
{
    if subs.len() == 0 {
        (table, rels)
    } else {
        cascade_subtasks(
            upsert_subtask_row(table, subs[0]),
            insert_pair(rels, task_id, subs[0].id),
            subs.drop_first(),
            task_id,
        )
    }
}

/// Cascading one more subtask is one more upsert of its row and one more
/// upsert of its relation pair.
pub proof fn lemma_cascade_push(
    table: Seq<Subtask>,
    rels: Seq<Relation>,
    subs: Seq<Subtask>,
    x: Subtask,
    task_id: u128,
)
    ensures
        cascade_subtasks(table, rels, subs.push(x), task_id).0 == upsert_subtask_row(
            cascade_subtasks(table, rels, subs, task_id).0,
            x,
        ),
        cascade_subtasks(table, rels, subs.push(x), task_id).1 == insert_pair(
            cascade_subtasks(table, rels, subs, task_id).1,
            task_id,
            x.id,
        ),
    decreases subs.len(),
{
    let pushed = subs.push(x);
    if subs.len() == 0 {
        assert(pushed[0] == x);
        assert(pushed.drop_first() =~= Seq::<Subtask>::empty());
        let t1 = upsert_subtask_row(table, x);
        let r1 = insert_pair(rels, task_id, x.id);
        assert(cascade_subtasks(table, rels, pushed, task_id) == cascade_subtasks(
            t1,
            r1,
            pushed.drop_first(),
            task_id,
        ));
        assert(cascade_subtasks(t1, r1, pushed.drop_first(), task_id) == (t1, r1));
        assert(cascade_subtasks(table, rels, subs, task_id) == (table, rels));
    } else {
        assert(pushed[0] == subs[0]);
        assert(pushed.drop_first() =~= subs.drop_first().push(x));
        let t1 = upsert_subtask_row(table, subs[0]);
        let r1 = insert_pair(rels, task_id, subs[0].id);
        assert(cascade_subtasks(table, rels, pushed, task_id) == cascade_subtasks(
            t1,
            r1,
            pushed.drop_first(),
            task_id,
        ));
        assert(cascade_subtasks(table, rels, subs, task_id) == cascade_subtasks(
            t1,
            r1,
            subs.drop_first(),
            task_id,
        ));
        lemma_cascade_push(t1, r1, subs.drop_first(), x, task_id);
    }
}

/// The task rows that a listing shows: the rows not soft-deleted, in table
/// order.
pub open spec fn live_row_pred() -> spec_fn(TaskRow) -> bool {
    |t: TaskRow| t.deleted_at is None
}

pub open spec fn live_task_rows(rows: Seq<TaskRow>) -> Seq<TaskRow> {
    rows.filter(live_row_pred())
}

/// What loading every task returns: one aggregate per live task row, in
/// table order, each carrying that task's subtask listing.
pub open spec fn task_listing_of(store: Storage, r: Seq<Task>) -> bool {
    let live = live_task_rows(store.tasks@);
    &&& r.len() == live.len()
    &&& forall|i: int|
        0 <= i < r.len() ==> task_row_of(#[trigger] r[i]) == live[i] && subtask_listing_of(
            store,
            live[i].id,
            r[i].subtasks@,
        )
}

fn clone_opt_string(s: &Option<String>) -> (r: Option<String>)
    ensures
        r == *s,
{
    match s {
        Some(x) => Some(x.clone()),
        None => None,
    }
}

/// The row a task is persisted as, built from the task.
pub(crate) fn task_row_from(t: &Task) -> (r: TaskRow)
    ensures
        r == task_row_of(*t),
{
    TaskRow {
        id: t.id,
        completed: t.completed,
        description: t.description.clone(),
        details: clone_opt_string(&t.details),
        start_datetime: t.start_datetime,
        end_datetime: t.end_datetime,
        progress: t.progress,
        created_at: t.created_at,
        updated_at: t.updated_at,
        deleted_at: t.deleted_at,
    }
}

/// A task aggregate rebuilt from its row and its loaded subtasks.
fn task_from_row(row: &TaskRow, subs: Vec<Subtask>) -> (t: Task)
    ensures
        task_row_of(t) == *row,
        t.subtasks == subs,
{
    Task {
        id: row.id,
        completed: row.completed,
        description: row.description.clone(),
        details: clone_opt_string(&row.details),
        subtasks: subs,
        start_datetime: row.start_datetime,
        end_datetime: row.end_datetime,
        progress: row.progress,
        created_at: row.created_at,
        updated_at: row.updated_at,
        deleted_at: row.deleted_at,
    }
}

/// Saves a task: refreshes its update instant, upserts its row, then
/// saves every attached subtask and upserts its relation row to the saved
/// task, as one whole.
pub fn save_task(store: &mut Storage, task: &mut Task, now: i64) -> (r: Result<(), StoreError>)
    requires
        old(store).wf(),
    ensures
        final(store).wf(),
        r is Ok,
        *final(task) == (Task { subtasks: final(task).subtasks, ..old(task).refreshed(now) }),
        final(task).subtasks@ == old(task).refreshed_subtasks(now),
        final(store).tasks@ == upsert_task_row(old(store).tasks@, task_row_of(*final(task))),
        final(store).subtasks@ == cascade_subtasks(
            old(store).subtasks@,
            old(store).rela_task_subtask@,
            final(task).subtasks@,
            old(task).id,
        ).0,
        final(store).rela_task_subtask@ == cascade_subtasks(
            old(store).subtasks@,
            old(store).rela_task_subtask@,
            final(task).subtasks@,
            old(task).id,
        ).1,
        final(store).task_groups@ == old(store).task_groups@,
        final(store).rela_task_task_group@ == old(store).rela_task_task_group@,
{
    task.refresh_updated_at(now);
    let row = task_row_from(task);
    let ghost pre0 = *store;
    proof {
        lemma_upsert_task_row(store.tasks@, row);
    }
    upsert_task_in(&mut store.tasks, row);
    proof {
        lemma_wf_after_task_upsert(pre0, *store, row);
    }

    let task_id = task.id;
    let ghost t1 = *task;
    let ghost subs0 = task.subtasks@;
    let ghost tasks1 = store.tasks@;
    let ghost sub0 = store.subtasks@;
    let ghost rel0 = store.rela_task_subtask@;
    let mut refreshed: Vec<Subtask> = Vec::new();
    let mut i: usize = 0;
    while i < task.subtasks.len()
        invariant
            store.wf(),
            i <= subs0.len(),
            *task == t1,
            task.subtasks@ == subs0,
            task_id == t1.id,
            has_task_id(tasks1, t1.id),
            refreshed@ == subs0.take(i as int).map_values(|s: Subtask| s.refreshed(now)),
            store.tasks@ == tasks1,
            store.subtasks@ == cascade_subtasks(sub0, rel0, refreshed@, t1.id).0,
            store.rela_task_subtask@ == cascade_subtasks(sub0, rel0, refreshed@, t1.id).1,
            store.task_groups@ == old(store).task_groups@,
            store.rela_task_task_group@ == old(store).rela_task_task_group@,
        decreases subs0.len() - i,
    {
        let mut s = task.subtasks[i].duplicate();
        s.refresh_updated_at(now);
        let srow = s.duplicate();
        let srow_id = srow.id;
        let ghost pre1 = *store;
        proof {
            lemma_upsert_subtask_row(store.subtasks@, srow);
            lemma_cascade_push(sub0, rel0, refreshed@, srow, t1.id);
        }
        upsert_subtask_in(&mut store.subtasks, srow);
        let ghost pre2 = *store;
        proof {
            lemma_wf_after_subtask_upsert(pre1, *store, srow);
            lemma_insert_pair(store.rela_task_subtask@, task_id, srow_id);
        }
        insert_pair_in(&mut store.rela_task_subtask, task_id, srow_id);
        proof {
            lemma_wf_after_ts_pair_insert(pre2, *store, task_id, srow_id);
        }
        refreshed.push(s);
        proof {
            assert(subs0.take(i + 1 as int).map_values(|s: Subtask| s.refreshed(now)) =~= subs0
                .take(i as int)
                .map_values(|s: Subtask| s.refreshed(now))
                .push(subs0[i as int].refreshed(now)));
        }
        i = i + 1;
    }
    proof {
        assert(subs0.take(subs0.len() as int) == subs0);
    }
    task.subtasks = refreshed;
    Ok(())
}

/// Sets the task's delete instant and saves it. The attached subtasks are
/// still cascaded, so they remain individually loadable (orphan retention).
pub fn soft_delete_task(store: &mut Storage, task: &mut Task, now: i64) -> (r: Result<
    (),
    StoreError,
>)
    requires
        old(store).wf(),
    ensures
        final(store).wf(),
        r is Ok,
        final(task).deleted_at is Some,
        *final(task) == (Task {
            subtasks: final(task).subtasks,
            ..old(task).marked_deleted(now).refreshed(now)
        }),
        final(task).subtasks@ == old(task).refreshed_subtasks(now),
        final(store).tasks@ == upsert_task_row(old(store).tasks@, task_row_of(*final(task))),
        final(store).subtasks@ == cascade_subtasks(
            old(store).subtasks@,
            old(store).rela_task_subtask@,
            final(task).subtasks@,
            old(task).id,
        ).0,
        final(store).rela_task_subtask@ == cascade_subtasks(
            old(store).subtasks@,
            old(store).rela_task_subtask@,
            final(task).subtasks@,
            old(task).id,
        ).1,
        final(store).task_groups@ == old(store).task_groups@,
        final(store).rela_task_task_group@ == old(store).rela_task_task_group@,
{
    task.mark_deleted(now);
    save_task(store, task, now)
}

/// Loads every non-deleted task, each with its ordered, non-deleted
/// subtasks attached. The order of tasks in the result follows the table.
pub fn load_all(store: &Storage) -> (r: Vec<Task>)
    ensures
        task_listing_of(*store, r@),
{
    let ghost all = store.tasks@;
    let ghost pred = live_row_pred();
    let mut out: Vec<Task> = Vec::new();
    let mut i: usize = 0;
    while i < store.tasks.len()
        invariant
            i <= all.len(),
            store.tasks@ == all,
            pred == live_row_pred(),
            out@.len() == all.take(i as int).filter(pred).len(),
            forall|k: int|
                0 <= k < out@.len() ==> task_row_of(#[trigger] out@[k]) == all.take(
                    i as int,
                ).filter(pred)[k] && subtask_listing_of(
                    *store,
                    all.take(i as int).filter(pred)[k].id,
                    out@[k].subtasks@,
                ),
        decreases all.len() - i,
    {
        let row = &store.tasks[i];
        proof {
            reveal(Seq::filter);
            assert(all.take(i + 1 as int).drop_last() == all.take(i as int));
            assert(all.take(i + 1 as int).last() == all[i as int]);
        }
        if row.deleted_at.is_none() {
            let subs = Subtask::load_for_task(store, row.id);
            let t = task_from_row(row, subs);
            out.push(t);
            proof {
                reveal(Seq::filter);
                assert(pred(all[i as int]));
                assert(all.take(i + 1 as int).filter(pred) == all.take(i as int).filter(
                    pred,
                ).push(all[i as int]));
            }
        } else {
            proof {
                reveal(Seq::filter);
                assert(!pred(all[i as int]));
                assert(all.take(i + 1 as int).filter(pred) == all.take(i as int).filter(pred));
            }
        }
        i = i + 1;
    }
    proof {
        assert(all.take(all.len() as int) == all);
    }
    out
}

} // verus!
