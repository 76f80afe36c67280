//! The task-group store: owns group rows and resolves membership through the
//! group-task relation table.

use vstd::prelude::*;

use crate::storage::{
    children_of, group_row_of, has_group_id, has_task_id, insert_pair, insert_pair_in,
    lemma_insert_pair, lemma_upsert_group_row, lemma_wf_after_group_upsert,
    lemma_wf_after_tg_pair_insert, upsert_group_in, upsert_group_row, GroupRow, Relation, Storage,
};
use crate::task_group::TaskGroup;
use crate::StoreError;

verus! {

/// Whether every member id references an existing task row. Relation rows
/// must reference ids that exist in both tables at write time; the store
/// enforces this here, since the schema is not assumed to.
pub open spec fn all_members_exist(tasks: Seq<crate::storage::TaskRow>, members: Seq<u128>) -> bool {
    forall|i: int| 0 <= i < members.len() ==> has_task_id(tasks, #[trigger] members[i])
}

/// The effect on the group-task relation table of writing the membership of
/// one group: each member pair is upserted.
pub open spec fn attach_members(rels: Seq<Relation>, group_id: u128, members: Seq<u128>) -> Seq<
    Relation,
>
    decreases members.len(),
{
    if members.len() == 0 {
        rels
    } else {
        attach_members(insert_pair(rels, group_id, members[0]), group_id, members.drop_first())
    }
}

/// Attaching one more member is one more pair upsert.
pub proof fn lemma_attach_push(rels: Seq<Relation>, group_id: u128, members: Seq<u128>, x: u128)
    ensures
        attach_members(rels, group_id, members.push(x)) == insert_pair(
            attach_members(rels, group_id, members),
            group_id,
            x,
        ),
    decreases members.len(),
{
    let pushed = members.push(x);
    if members.len() == 0 {
        assert(pushed[0] == x);
        assert(pushed.drop_first() =~= Seq::<u128>::empty());
        let r1 = insert_pair(rels, group_id, x);
        assert(attach_members(rels, group_id, pushed) == attach_members(
            r1,
            group_id,
            pushed.drop_first(),
        ));
        assert(attach_members(r1, group_id, pushed.drop_first()) == r1);
        assert(attach_members(rels, group_id, members) == rels);
    } else {
        assert(pushed[0] == members[0]);
        assert(pushed.drop_first() =~= members.drop_first().push(x));
        let r1 = insert_pair(rels, group_id, members[0]);
        assert(attach_members(rels, group_id, pushed) == attach_members(
            r1,
            group_id,
            pushed.drop_first(),
        ));
        assert(attach_members(rels, group_id, members) == attach_members(
            r1,
            group_id,
            members.drop_first(),
        ));
        lemma_attach_push(r1, group_id, members.drop_first(), x);
    }
}

pub open spec fn live_group_pred() -> spec_fn(GroupRow) -> bool {
    |g: GroupRow| g.deleted_at is None
}

/// The group rows that a listing shows: the rows not soft-deleted, in table
/// order.
pub open spec fn live_group_rows(rows: Seq<GroupRow>) -> Seq<GroupRow> {
    rows.filter(live_group_pred())
}

/// What loading every group returns: one group per live row, in table order,
/// each carrying the member task ids resolved through the relation table.
pub open spec fn group_listing_of(store: Storage, r: Seq<TaskGroup>) -> bool {
    let live = live_group_rows(store.task_groups@);
    &&& r.len() == live.len()
    &&& forall|i: int|
        0 <= i < r.len() ==> group_row_of(#[trigger] r[i]) == live[i] && r[i].tasks@ == children_of(
            store.rela_task_task_group@,
            live[i].id,
        )
}

/// The row a group is persisted as, built from the group.
pub(crate) fn group_row_from(g: &TaskGroup) -> (r: GroupRow)
    ensures
        r == group_row_of(*g),
{
    GroupRow {
        id: g.id,
        name: g.name.clone(),
        created_at: g.created_at,
        updated_at: g.updated_at,
        deleted_at: g.deleted_at,
    }
}

/// A group rebuilt from its row and its resolved member ids.
fn group_from_row(row: &GroupRow, tasks: Vec<u128>) -> (g: TaskGroup)
    ensures
        group_row_of(g) == *row,
        g.tasks == tasks,
{
    TaskGroup {
        id: row.id,
        name: row.name.clone(),
        tasks,
        created_at: row.created_at,
        updated_at: row.updated_at,
        deleted_at: row.deleted_at,
    }
}

/// Saves a group: refreshes its update instant, upserts its row, and writes
/// the membership relations for the tasks currently attached. Full task
/// records are not cascaded; tasks are persisted independently. Every
/// attached task id must reference an existing task row: a missing one is
/// reported as `NotFound` and nothing at all is written, so a failed save
/// never leaves partial membership behind.
pub fn save_task_group(store: &mut Storage, task_group: &mut TaskGroup, now: i64) -> (r: Result<
    (),
    StoreError,
>)
    requires
        old(store).wf(),
    ensures
        final(store).wf(),
        r is Ok <==> all_members_exist(old(store).tasks@, old(task_group).tasks@),
        r is Ok ==> *final(task_group) == old(task_group).refreshed(now)
            && final(store).task_groups@ == upsert_group_row(
            old(store).task_groups@,
            group_row_of(*final(task_group)),
        ) && final(store).rela_task_task_group@ == attach_members(
            old(store).rela_task_task_group@,
            old(task_group).id,
            old(task_group).tasks@,
        ),
        r is Err ==> r == Err::<(), StoreError>(StoreError::NotFound) && *final(store) == *old(
            store,
        ) && *final(task_group) == *old(task_group),
        final(store).tasks@ == old(store).tasks@,
        final(store).subtasks@ == old(store).subtasks@,
        final(store).rela_task_subtask@ == old(store).rela_task_subtask@,
{
    let ghost members = task_group.tasks@;

    // Check every member first, so that a failed save writes nothing.
    let mut i: usize = 0;
    while i < task_group.tasks.len()
        invariant
            store.wf(),
            i <= members.len(),
            task_group.tasks@ == members,
            *task_group == *old(task_group),
            *store == *old(store),
            forall|k: int| 0 <= k < i ==> has_task_id(store.tasks@, #[trigger] members[k]),
        decreases members.len() - i,
    {
        if crate::storage::find_task_index(&store.tasks, task_group.tasks[i]).is_none() {
            return Err(StoreError::NotFound);
        }
        i = i + 1;
    }

    task_group.refresh_updated_at(now);
    let row = group_row_from(task_group);
    let group_id = task_group.id;
    let ghost pre0 = *store;
    proof {
        lemma_upsert_group_row(store.task_groups@, row);
    }
    upsert_group_in(&mut store.task_groups, row);
    proof {
        lemma_wf_after_group_upsert(pre0, *store, row);
    }

    let ghost groups1 = store.task_groups@;
    let ghost rel0 = store.rela_task_task_group@;
    let mut j: usize = 0;
    while j < task_group.tasks.len()
        invariant
            store.wf(),
            j <= members.len(),
            task_group.tasks@ == members,
            group_id == old(task_group).id,
            has_group_id(store.task_groups@, group_id),
            forall|k: int| 0 <= k < members.len() ==> has_task_id(store.tasks@, #[trigger] members[k]),
            store.task_groups@ == groups1,
            store.tasks@ == old(store).tasks@,
            store.subtasks@ == old(store).subtasks@,
            store.rela_task_subtask@ == old(store).rela_task_subtask@,
            store.rela_task_task_group@ == attach_members(
                rel0,
                group_id,
                members.take(j as int),
            ),
        decreases members.len() - j,
    {
        let member = task_group.tasks[j];
        let ghost pre1 = *store;
        proof {
            lemma_insert_pair(store.rela_task_task_group@, group_id, member);
            lemma_attach_push(rel0, group_id, members.take(j as int), member);
            assert(members.take(j + 1 as int) =~= members.take(j as int).push(member));
        }
        insert_pair_in(&mut store.rela_task_task_group, group_id, member);
        proof {
            lemma_wf_after_tg_pair_insert(pre1, *store, group_id, member);
        }
        j = j + 1;
    }
    proof {
        assert(members.take(members.len() as int) == members);
    }
    Ok(())
}

/// Sets the group's delete instant and saves it. Relations are left intact.
pub fn soft_delete_group(store: &mut Storage, task_group: &mut TaskGroup, now: i64) -> (r: Result<
    (),
    StoreError,
>)
    requires
        old(store).wf(),
    ensures
        final(store).wf(),
        r is Ok <==> all_members_exist(old(store).tasks@, old(task_group).tasks@),
        r is Ok ==> *final(task_group) == old(task_group).marked_deleted(now).refreshed(now)
            && final(task_group).deleted_at is Some && final(store).task_groups@
            == upsert_group_row(old(store).task_groups@, group_row_of(*final(task_group)))
            && final(store).rela_task_task_group@ == attach_members(
            old(store).rela_task_task_group@,
            old(task_group).id,
            old(task_group).tasks@,
        ),
        r is Err ==> r == Err::<(), StoreError>(StoreError::NotFound) && *final(store) == *old(
            store,
        ) && *final(task_group) == old(task_group).marked_deleted(now),
        final(store).tasks@ == old(store).tasks@,
        final(store).subtasks@ == old(store).subtasks@,
        final(store).rela_task_subtask@ == old(store).rela_task_subtask@,
{
    task_group.mark_deleted(now);
    save_task_group(store, task_group, now)
}

/// Updates only the name of a group that is already stored, refreshing its
/// update instant; the stored creation and delete instants are preserved. A
/// group with no stored row is reported as `NotFound`.
pub fn update_task_group_name(store: &mut Storage, task_group: &mut TaskGroup, now: i64) -> (r:
    Result<(), StoreError>)
    requires
        old(store).wf(),
    ensures
        final(store).wf(),
        r is Ok <==> has_group_id(old(store).task_groups@, old(task_group).id),
        r is Ok ==> *final(task_group) == old(task_group).refreshed(now)
            && final(store).task_groups@ == old(store).task_groups@.update(
            crate::storage::group_index_of(old(store).task_groups@, old(task_group).id),
            (GroupRow {
                name: final(task_group).name,
                updated_at: final(task_group).updated_at,
                ..old(store).task_groups@[crate::storage::group_index_of(
                    old(store).task_groups@,
                    old(task_group).id,
                )]
            }),
        ),
        r is Err ==> r == Err::<(), StoreError>(StoreError::NotFound) && *final(store) == *old(
            store,
        ) && *final(task_group) == *old(task_group),
        final(store).tasks@ == old(store).tasks@,
        final(store).subtasks@ == old(store).subtasks@,
        final(store).rela_task_subtask@ == old(store).rela_task_subtask@,
        final(store).rela_task_task_group@ == old(store).rela_task_task_group@,
{
    match crate::storage::find_group_index(&store.task_groups, task_group.id) {
        None => Err(StoreError::NotFound),
        Some(i) => {
            task_group.refresh_updated_at(now);
            let ghost pre = *store;
            let ghost rows0 = store.task_groups@;
            let stored = &store.task_groups[i];
            let row = GroupRow {
                id: stored.id,
                name: task_group.name.clone(),
                created_at: stored.created_at,
                updated_at: task_group.updated_at,
                deleted_at: stored.deleted_at,
            };
            store.task_groups[i] = row;
            proof {
                let k = crate::storage::group_index_of(rows0, old(task_group).id);
                assert(0 <= k < rows0.len() && rows0[k].id == old(task_group).id);
                assert(k == i as int);
                assert forall|a: int| 0 <= a < store.task_groups@.len() implies store.task_groups@[a].id
                    == rows0[a].id by {
                    if a != i as int {
                        assert(store.task_groups@[a] == rows0[a]);
                    }
                }
                assert forall|id: u128| #[trigger] has_group_id(store.task_groups@, id) implies
                    has_group_id(rows0, id) by {
                    let w = choose|b: int|
                        0 <= b < store.task_groups@.len() && store.task_groups@[b].id == id;
                    assert(rows0[w].id == id);
                }
                assert forall|id: u128| has_group_id(rows0, id) implies #[trigger] has_group_id(
                    store.task_groups@,
                    id,
                ) by {
                    let w = choose|b: int| 0 <= b < rows0.len() && rows0[b].id == id;
                    assert(store.task_groups@[w].id == id);
                }
                assert forall|a: int| 0 <= a < store.rela_task_task_group@.len() implies
                    has_group_id(
                    store.task_groups@,
                    (#[trigger] store.rela_task_task_group@[a]).parent_id,
                ) && has_task_id(store.tasks@, store.rela_task_task_group@[a].child_id) by {
                    assert(has_group_id(rows0, pre.rela_task_task_group@[a].parent_id));
                }
            }
            Ok(())
        },
    }
}

/// Loads every non-deleted group, each with its member task-id set resolved
/// through the relation table. Full task records are resolved lazily by the
/// caller. The order of groups in the result follows the table.
pub fn load_all(store: &Storage) -> (r: Vec<TaskGroup>)
    ensures
        group_listing_of(*store, r@),
{
    let ghost all = store.task_groups@;
    let ghost pred = live_group_pred();
    let mut out: Vec<TaskGroup> = Vec::new();
    let mut i: usize = 0;
    while i < store.task_groups.len()
        invariant
            i <= all.len(),
            store.task_groups@ == all,
            pred == live_group_pred(),
            out@.len() == all.take(i as int).filter(pred).len(),
            forall|k: int|
                0 <= k < out@.len() ==> group_row_of(#[trigger] out@[k]) == all.take(
                    i as int,
                ).filter(pred)[k] && out@[k].tasks@ == children_of(
                    store.rela_task_task_group@,
                    all.take(i as int).filter(pred)[k].id,
                ),
        decreases all.len() - i,
    {
        let row = &store.task_groups[i];
        proof {
            reveal(Seq::filter);
            assert(all.take(i + 1 as int).drop_last() == all.take(i as int));
            assert(all.take(i + 1 as int).last() == all[i as int]);
        }
        if row.deleted_at.is_none() {
            let tasks = crate::task_task_group::get_task_id_from_task_group_id(store, row.id);
            let g = group_from_row(row, tasks);
            out.push(g);
            proof {
                reveal(Seq::filter);
                assert(pred(all[i as int]));
                assert(all.take(i + 1 as int).filter(pred) == all.take(i as int).filter(
                    pred,
                ).push(all[i as int]));
            }
        } else {
            proof {
                reveal(Seq::filter);
                assert(!pred(all[i as int]));
                assert(all.take(i + 1 as int).filter(pred) == all.take(i as int).filter(pred));
            }
        }
        i = i + 1;
    }
    proof {
        assert(all.take(all.len() as int) == all);
    }
    out
}

} // verus!
