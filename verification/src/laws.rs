//! Laws of the store, stated and proved once over the specifications that
//! the store operations promise.

use vstd::prelude::*;

use crate::commands::saved_task_effect;
use crate::storage::{
    has_pair, has_task_id, insert_pair, task_row_of, unique_pairs, unique_task_ids,
    upsert_task_row, Relation, Storage, TaskRow,
};
use crate::subtask::Subtask;
use crate::subtask_store::{live_subtasks_of, related_live, subtask_listing_of};
use crate::task::Task;
use crate::task_store::{
    cascade_subtasks, live_row_pred, live_task_rows, task_listing_of,
};

verus! {

broadcast use vstd::seq_lib::group_to_multiset_ensures;

/// Every element of a filtered sequence is an element of the original.
pub proof fn lemma_filter_elements<A>(s: Seq<A>, pred: spec_fn(A) -> bool)
    ensures
        forall|i: int|
            0 <= i < s.filter(pred).len() ==> s.contains(#[trigger] s.filter(pred)[i]),
    decreases s.len(),
{
    reveal(Seq::filter);
    if s.len() == 0 {
    } else {
        let rest = s.drop_last();
        lemma_filter_elements(rest, pred);
        assert forall|i: int| 0 <= i < s.filter(pred).len() implies s.contains(
            #[trigger] s.filter(pred)[i],
        ) by {
            if i < rest.filter(pred).len() {
                assert(rest.contains(rest.filter(pred)[i]));
                let w = choose|w: int| 0 <= w < rest.len() && rest[w] == rest.filter(pred)[i];
                assert(s[w] == rest.filter(pred)[i]);
            } else {
                assert(s.filter(pred)[i] == s.last());
                assert(s[s.len() - 1] == s.last());
            }
        }
    }
}

/// An element of the original that satisfies the predicate is an element of
/// the filtered sequence, at some index.
pub proof fn lemma_filter_has_index<A>(s: Seq<A>, pred: spec_fn(A) -> bool, i: int)
    requires
        0 <= i < s.len(),
        pred(s[i]),
    ensures
        exists|k: int| 0 <= k < s.filter(pred).len() && s.filter(pred)[k] == s[i],
{
    broadcast use vstd::seq_lib::group_filter_ensures;

    assert(s.filter(pred).contains(s[i]));
}

/// Filtering the task table keeps ids unique.
pub proof fn lemma_live_task_rows_unique(rows: Seq<TaskRow>)
    requires
        unique_task_ids(rows),
    ensures
        unique_task_ids(live_task_rows(rows)),
    decreases rows.len(),
{
    reveal(Seq::filter);
    let pred = live_row_pred();
    if rows.len() == 0 {
    } else {
        let rest = rows.drop_last();
        assert(unique_task_ids(rest)) by {
            assert forall|i: int, j: int| 0 <= i < j < rest.len() implies rest[i].id != rest[j].id
                by {
                assert(rest[i] == rows[i] && rest[j] == rows[j]);
            }
        }
        lemma_live_task_rows_unique(rest);
        lemma_filter_elements(rest, pred);
        if pred(rows.last()) {
            assert(rows.filter(pred) == rest.filter(pred).push(rows.last()));
            assert forall|i: int, j: int|
                0 <= i < j < rows.filter(pred).len() implies rows.filter(pred)[i].id != rows.filter(
                pred,
            )[j].id by {
                if j < rest.filter(pred).len() {
                } else {
                    assert(rows.filter(pred)[j] == rows.last());
                    assert(rest.contains(rest.filter(pred)[i]));
                    let w = choose|w: int|
                        0 <= w < rest.len() && rest[w] == rest.filter(pred)[i];
                    assert(rows[w] == rest.filter(pred)[i]);
                    assert(rows[w].id != rows[rows.len() - 1].id);
                }
            }
        } else {
            assert(rows.filter(pred) == rest.filter(pred));
        }
    }
}

/// Saving a task and then loading every task yields a listing that carries a
/// task with the same id and description and with no delete instant: what is
/// created and saved is listed.
pub proof fn law_saved_task_is_listed(
    pre: Storage,
    post: Storage,
    t: Task,
    now: i64,
    listing: Seq<Task>,
)
    requires
        pre.wf(),
        t.deleted_at is None,
        saved_task_effect(pre, post, t, now),
        task_listing_of(post, listing),
    ensures
        exists|i: int|
            0 <= i < listing.len() && (#[trigger] listing[i]).id == t.id && listing[i].description
                == t.description && listing[i].deleted_at is None,
{
    let row = task_row_of(t.refreshed(now));
    let rows = post.tasks@;
    crate::storage::lemma_upsert_task_row(pre.tasks@, row);
    assert(exists|k: int| 0 <= k < rows.len() && rows[k] == row) by {
        if has_task_id(pre.tasks@, row.id) {
            let k = crate::storage::task_index_of(pre.tasks@, row.id);
            assert(rows[k] == row);
        } else {
            assert(rows[pre.tasks@.len() as int] == row);
        }
    }
    let k = choose|k: int| 0 <= k < rows.len() && rows[k] == row;
    assert(live_row_pred()(rows[k]));
    lemma_filter_has_index(rows, live_row_pred(), k);
    let live = live_task_rows(post.tasks@);
    let j = choose|j: int| 0 <= j < live.len() && live[j] == row;
    assert(task_row_of(listing[j]) == row);
    assert(listing[j].id == t.id && listing[j].description == t.description && listing[j].deleted_at
        is None);
}

/// An upsert leaves the upserted row in the table, at some index.
pub proof fn lemma_upsert_contains_subtask(table: Seq<Subtask>, row: Subtask)
    ensures
        exists|k: int|
            0 <= k < crate::storage::upsert_subtask_row(table, row).len()
                && crate::storage::upsert_subtask_row(table, row)[k] == row,
{
    let out = crate::storage::upsert_subtask_row(table, row);
    if crate::storage::has_subtask_id(table, row.id) {
        let k = crate::storage::subtask_index_of(table, row.id);
        assert(out[k] == row);
    } else {
        assert(out[table.len() as int] == row);
    }
}

/// An upsert of a row with a different id keeps an element in place.
pub proof fn lemma_upsert_keeps_subtask(table: Seq<Subtask>, row: Subtask, x: Subtask)
    requires
        x.id != row.id,
        exists|k: int| 0 <= k < table.len() && table[k] == x,
    ensures
        exists|k: int|
            0 <= k < crate::storage::upsert_subtask_row(table, row).len()
                && crate::storage::upsert_subtask_row(table, row)[k] == x,
{
    let out = crate::storage::upsert_subtask_row(table, row);
    let k = choose|k: int| 0 <= k < table.len() && table[k] == x;
    if crate::storage::has_subtask_id(table, row.id) {
        let u = crate::storage::subtask_index_of(table, row.id);
        assert(table[u].id == row.id);
        assert(u != k);
        assert(out[k] == x);
    } else {
        assert(out[k] == x);
    }
}

/// Inserting a pair keeps every pair that was present, and leaves the
/// inserted pair present.
pub proof fn lemma_insert_pair_monotonic(rels: Seq<Relation>, p: u128, c: u128, p2: u128, c2: u128)
    requires
        has_pair(rels, p2, c2),
    ensures
        has_pair(insert_pair(rels, p, c), p2, c2),
{
    let w = choose|w: int|
        0 <= w < rels.len() && rels[w] == (Relation { parent_id: p2, child_id: c2 });
    assert(insert_pair(rels, p, c)[w] == rels[w]);
}

/// The inserted pair is present.
pub proof fn lemma_insert_pair_present(rels: Seq<Relation>, p: u128, c: u128)
    ensures
        has_pair(insert_pair(rels, p, c), p, c),
{
    if !has_pair(rels, p, c) {
        assert(insert_pair(rels, p, c)[rels.len() as int] == (Relation {
            parent_id: p,
            child_id: c,
        }));
    }
}

/// Cascading subtasks whose ids all differ from `x.id` keeps `x` in the
/// table, and keeps every relation pair that was present.
pub proof fn lemma_cascade_preserves(
    table: Seq<Subtask>,
    rels: Seq<Relation>,
    subs: Seq<Subtask>,
    task_id: u128,
    x: Subtask,
    p: u128,
    c: u128,
)
    requires
        exists|k: int| 0 <= k < table.len() && table[k] == x,
        forall|j: int| 0 <= j < subs.len() ==> (#[trigger] subs[j]).id != x.id,
        has_pair(rels, p, c),
    ensures
        exists|k: int|
            0 <= k < cascade_subtasks(table, rels, subs, task_id).0.len() && cascade_subtasks(
                table,
                rels,
                subs,
                task_id,
            ).0[k] == x,
        has_pair(cascade_subtasks(table, rels, subs, task_id).1, p, c),
    decreases subs.len(),
{
    if subs.len() == 0 {
    } else {
        let t1 = crate::storage::upsert_subtask_row(table, subs[0]);
        let r1 = insert_pair(rels, task_id, subs[0].id);
        lemma_upsert_keeps_subtask(table, subs[0], x);
        lemma_insert_pair_monotonic(rels, task_id, subs[0].id, p, c);
        assert(forall|j: int|
            0 <= j < subs.drop_first().len() ==> (#[trigger] subs.drop_first()[j]).id != x.id);
        lemma_cascade_preserves(t1, r1, subs.drop_first(), task_id, x, p, c);
        let out = cascade_subtasks(t1, r1, subs.drop_first(), task_id);
        assert(cascade_subtasks(table, rels, subs, task_id) == out);
        let k = choose|k: int| 0 <= k < out.0.len() && out.0[k] == x;
        assert(cascade_subtasks(table, rels, subs, task_id).0[k] == x);
    }
}

/// After a cascade of subtasks with pairwise distinct ids, every one of them
/// stands in the table, and its relation pair to the task is present.
pub proof fn lemma_cascade_effects(
    table: Seq<Subtask>,
    rels: Seq<Relation>,
    subs: Seq<Subtask>,
    task_id: u128,
    j: int,
)
    requires
        forall|a: int, b: int| 0 <= a < b < subs.len() ==> subs[a].id != subs[b].id,
        0 <= j < subs.len(),
    ensures
        exists|k: int|
            0 <= k < cascade_subtasks(table, rels, subs, task_id).0.len() && cascade_subtasks(
                table,
                rels,
                subs,
                task_id,
            ).0[k] == subs[j],
        has_pair(cascade_subtasks(table, rels, subs, task_id).1, task_id, subs[j].id),
    decreases subs.len(),
{
    let t1 = crate::storage::upsert_subtask_row(table, subs[0]);
    let r1 = insert_pair(rels, task_id, subs[0].id);
    if j == 0 {
        lemma_upsert_contains_subtask(table, subs[0]);
        lemma_insert_pair_present(rels, task_id, subs[0].id);
        assert(forall|a: int|
            0 <= a < subs.drop_first().len() ==> (#[trigger] subs.drop_first()[a]).id != subs[0].id);
        lemma_cascade_preserves(
            t1,
            r1,
            subs.drop_first(),
            task_id,
            subs[0],
            task_id,
            subs[0].id,
        );
        let out = cascade_subtasks(t1, r1, subs.drop_first(), task_id);
        assert(cascade_subtasks(table, rels, subs, task_id) == out);
        let k = choose|k: int| 0 <= k < out.0.len() && out.0[k] == subs[0];
        assert(cascade_subtasks(table, rels, subs, task_id).0[k] == subs[0]);
    } else {
        assert(forall|a: int, b: int|
            0 <= a < b < subs.drop_first().len() ==> subs.drop_first()[a].id != subs.drop_first()[b].id);
        assert(subs.drop_first()[j - 1] == subs[j]);
        lemma_cascade_effects(t1, r1, subs.drop_first(), task_id, j - 1);
        let out = cascade_subtasks(t1, r1, subs.drop_first(), task_id);
        assert(cascade_subtasks(table, rels, subs, task_id) == out);
        let k = choose|k: int| 0 <= k < out.0.len() && out.0[k] == subs[j];
        assert(cascade_subtasks(table, rels, subs, task_id).0[k] == subs[j]);
    }
}

/// Soft-deleting a task removes it from the task listing, while a direct
/// subtask load for its id still returns each of its prior subtasks: orphan
/// retention.
pub proof fn law_soft_delete_orphan_retention(
    pre: Storage,
    post: Storage,
    t: Task,
    d: i64,
    now: i64,
    listing: Seq<Task>,
    subs: Seq<Subtask>,
    j: int,
)
    requires
        pre.wf(),
        t.deleted_at is Some || t.marked_deleted(d).deleted_at is Some,
        saved_task_effect(pre, post, t.marked_deleted(d), now),
        task_listing_of(post, listing),
        subtask_listing_of(post, t.id, subs),
        forall|a: int, b: int| 0 <= a < b < t.subtasks@.len() ==> t.subtasks@[a].id != t.subtasks@[b].id,
        0 <= j < t.subtasks@.len(),
        t.subtasks@[j].deleted_at is None,
    ensures
        forall|i: int| 0 <= i < listing.len() ==> (#[trigger] listing[i]).id != t.id,
        exists|k: int| 0 <= k < subs.len() && subs[k] == t.subtasks@[j].refreshed(now),
{
    let td = t.marked_deleted(d);
    let row = task_row_of(td.refreshed(now));
    let rows = post.tasks@;
    crate::storage::lemma_upsert_task_row(pre.tasks@, row);

    // The task's row is soft-deleted, and no other row carries its id, so the
    // live rows carry no row with its id.
    assert(row.deleted_at is Some);
    assert forall|i: int| 0 <= i < listing.len() implies (#[trigger] listing[i]).id != t.id by {
        let live = live_task_rows(post.tasks@);
        lemma_filter_elements(rows, live_row_pred());
        if listing[i].id == t.id {
            assert(task_row_of(listing[i]) == live[i]);
            assert(live[i].id == t.id);
            assert(rows.contains(live[i]));
            let w = choose|w: int| 0 <= w < rows.len() && rows[w] == live[i];
            assert(live_row_pred()(live[i]));
            // rows[w] is live with id t.id; show every row of `rows` with id
            // t.id is the soft-deleted row, a contradiction.
            if has_task_id(pre.tasks@, row.id) {
                let k = crate::storage::task_index_of(pre.tasks@, row.id);
                if w == k {
                    assert(rows[w] == row);
                } else {
                    assert(rows[w] == pre.tasks@[w]);
                    assert(pre.tasks@[k].id == row.id);
                    assert(pre.tasks@[w].id != pre.tasks@[k].id);
                }
            } else {
                if w == pre.tasks@.len() as int {
                    assert(rows[w] == row);
                } else {
                    assert(rows[w] == pre.tasks@[w]);
                    assert(!has_task_id(pre.tasks@, row.id));
                }
            }
        }
    }

    // The cascaded subtask row is in the table, live, and related, so the
    // subtask listing carries it.
    let refreshed = td.refreshed_subtasks(now);
    assert(refreshed.len() == t.subtasks@.len());
    assert forall|a: int, b: int| 0 <= a < b < refreshed.len() implies refreshed[a].id
        != refreshed[b].id by {
        assert(refreshed[a] == t.subtasks@[a].refreshed(now));
        assert(refreshed[b] == t.subtasks@[b].refreshed(now));
    }
    lemma_cascade_effects(pre.subtasks@, pre.rela_task_subtask@, refreshed, td.id, j);
    let sj = refreshed[j];
    assert(sj == t.subtasks@[j].refreshed(now));
    assert(sj.deleted_at is None);
    let table = post.subtasks@;
    let k = choose|k: int| 0 <= k < table.len() && table[k] == sj;
    assert(related_live(post.rela_task_subtask@, t.id)(table[k]));
    lemma_filter_has_index(table, related_live(post.rela_task_subtask@, t.id), k);
    let live = live_subtasks_of(post, t.id);
    assert(live.contains(sj));
    assert(live.to_multiset().count(sj) > 0);
    assert(subs.to_multiset().count(sj) > 0);
    assert(subs.contains(sj));
    let w = choose|w: int| 0 <= w < subs.len() && subs[w] == sj;
    assert(0 <= w < subs.len() && subs[w] == t.subtasks@[j].refreshed(now));
}

/// A pair table after an insertion holds a pair exactly when the pair was
/// held before or is the inserted one.
pub proof fn lemma_insert_pair_char(rels: Seq<Relation>, a: u128, b: u128)
    ensures
        forall|p: u128, c: u128|
            #[trigger] has_pair(insert_pair(rels, a, b), p, c) <==> (has_pair(rels, p, c) || (p == a
                && c == b)),
{
    let out = insert_pair(rels, a, b);
    assert forall|p: u128, c: u128| #[trigger] has_pair(out, p, c) implies (has_pair(rels, p, c)
        || (p == a && c == b)) by {
        let q = Relation { parent_id: p, child_id: c };
        let w = choose|i: int| 0 <= i < out.len() && out[i] == q;
        if w < rels.len() {
            assert(rels[w] == q);
        }
    }
    assert forall|p: u128, c: u128| has_pair(rels, p, c) implies #[trigger] has_pair(out, p, c) by {
        let q = Relation { parent_id: p, child_id: c };
        let w = choose|i: int| 0 <= i < rels.len() && rels[i] == q;
        assert(out[w] == q);
    }
    lemma_insert_pair_present(rels, a, b);
}

/// The relation pairs after a cascade are exactly the prior pairs plus one
/// pair from the task to each cascaded subtask.
pub proof fn lemma_cascade_pairs(
    table: Seq<Subtask>,
    rels: Seq<Relation>,
    subs: Seq<Subtask>,
    task_id: u128,
)
    ensures
        forall|p: u128, c: u128|
            #[trigger] has_pair(cascade_subtasks(table, rels, subs, task_id).1, p, c) <==> (
            has_pair(rels, p, c) || (p == task_id && exists|j: int|
                0 <= j < subs.len() && (#[trigger] subs[j]).id == c)),
    decreases subs.len(),
{
    if subs.len() == 0 {
    } else {
        let t1 = crate::storage::upsert_subtask_row(table, subs[0]);
        let r1 = insert_pair(rels, task_id, subs[0].id);
        let rest = subs.drop_first();
        lemma_insert_pair_char(rels, task_id, subs[0].id);
        lemma_cascade_pairs(t1, r1, rest, task_id);
        let out = cascade_subtasks(t1, r1, rest, task_id);
        assert(cascade_subtasks(table, rels, subs, task_id) == out);
        assert forall|p: u128, c: u128| #[trigger] has_pair(out.1, p, c) <==> (has_pair(rels, p, c)
            || (p == task_id && exists|j: int|
            0 <= j < subs.len() && (#[trigger] subs[j]).id == c)) by {
            if has_pair(out.1, p, c) {
                assert(has_pair(r1, p, c) || (p == task_id && exists|j: int|
                    0 <= j < rest.len() && (#[trigger] rest[j]).id == c));
                if !has_pair(r1, p, c) {
                    let j = choose|j: int| 0 <= j < rest.len() && rest[j].id == c;
                    assert(subs[j + 1].id == c);
                }
                if has_pair(r1, p, c) && !has_pair(rels, p, c) {
                    assert(subs[0].id == c && p == task_id);
                }
            }
            if has_pair(rels, p, c) {
                assert(has_pair(r1, p, c));
            }
            if p == task_id && exists|j: int| 0 <= j < subs.len() && (#[trigger] subs[j]).id == c {
                let j = choose|j: int| 0 <= j < subs.len() && subs[j].id == c;
                if j == 0 {
                    assert(has_pair(r1, p, c));
                } else {
                    assert(rest[j - 1].id == c);
                }
            }
        }
    }
}

/// Cascading subtasks whose ids all differ from `x.id` never changes what a
/// row with `x.id` holds.
pub proof fn lemma_cascade_keeps_id_rows(
    table: Seq<Subtask>,
    rels: Seq<Relation>,
    subs: Seq<Subtask>,
    task_id: u128,
    x: Subtask,
)
    requires
        forall|i: int| 0 <= i < table.len() && (#[trigger] table[i]).id == x.id ==> table[i] == x,
        forall|j: int| 0 <= j < subs.len() ==> (#[trigger] subs[j]).id != x.id,
    ensures
        forall|i: int|
            0 <= i < cascade_subtasks(table, rels, subs, task_id).0.len() && (
            #[trigger] cascade_subtasks(table, rels, subs, task_id).0[i]).id == x.id
                ==> cascade_subtasks(table, rels, subs, task_id).0[i] == x,
    decreases subs.len(),
{
    if subs.len() == 0 {
    } else {
        let t1 = crate::storage::upsert_subtask_row(table, subs[0]);
        assert forall|i: int| 0 <= i < t1.len() && (#[trigger] t1[i]).id == x.id implies t1[i] == x
            by {
            if crate::storage::has_subtask_id(table, subs[0].id) {
                let k = crate::storage::subtask_index_of(table, subs[0].id);
                if i != k {
                    assert(t1[i] == table[i]);
                }
            } else {
                if i < table.len() {
                    assert(t1[i] == table[i]);
                }
            }
        }
        lemma_cascade_keeps_id_rows(
            t1,
            insert_pair(rels, task_id, subs[0].id),
            subs.drop_first(),
            task_id,
            x,
        );
    }
}

/// After a cascade of subtasks with pairwise distinct ids over a table with
/// unique ids, ids stay unique and every row carrying a cascaded id holds
/// that cascaded subtask.
pub proof fn lemma_cascade_member_rows(
    table: Seq<Subtask>,
    rels: Seq<Relation>,
    subs: Seq<Subtask>,
    task_id: u128,
)
    requires
        crate::storage::unique_subtask_ids(table),
        forall|a: int, b: int| 0 <= a < b < subs.len() ==> subs[a].id != subs[b].id,
    ensures
        crate::storage::unique_subtask_ids(cascade_subtasks(table, rels, subs, task_id).0),
        forall|i: int|
            0 <= i < cascade_subtasks(table, rels, subs, task_id).0.len() && (exists|j: int|
                0 <= j < subs.len() && (#[trigger] subs[j]).id == (
                #[trigger] cascade_subtasks(table, rels, subs, task_id).0[i]).id) ==> exists|j: int|
                0 <= j < subs.len() && cascade_subtasks(table, rels, subs, task_id).0[i] == subs[j],
    decreases subs.len(),
{
    if subs.len() == 0 {
    } else {
        let t1 = crate::storage::upsert_subtask_row(table, subs[0]);
        let r1 = insert_pair(rels, task_id, subs[0].id);
        let rest = subs.drop_first();
        crate::storage::lemma_upsert_subtask_row(table, subs[0]);
        assert forall|i: int| 0 <= i < t1.len() && (#[trigger] t1[i]).id == subs[0].id implies t1[i]
            == subs[0] by {
            if crate::storage::has_subtask_id(table, subs[0].id) {
                let k = crate::storage::subtask_index_of(table, subs[0].id);
                if i != k {
                    assert(t1[i] == table[i]);
                    assert(table[k].id == subs[0].id);
                }
            } else {
                if i < table.len() {
                    assert(t1[i] == table[i]);
                }
            }
        }
        lemma_cascade_member_rows(t1, r1, rest, task_id);
        lemma_cascade_keeps_id_rows(t1, r1, rest, task_id, subs[0]);
        let out = cascade_subtasks(t1, r1, rest, task_id);
        assert(cascade_subtasks(table, rels, subs, task_id) == out);
        assert forall|i: int|
            0 <= i < out.0.len() && (exists|j: int|
                0 <= j < subs.len() && (#[trigger] subs[j]).id == (#[trigger] out.0[i]).id) implies
            exists|j: int| 0 <= j < subs.len() && out.0[i] == subs[j] by {
            let j = choose|j: int| 0 <= j < subs.len() && subs[j].id == out.0[i].id;
            if j == 0 {
                assert(out.0[i] == subs[0]);
            } else {
                assert(rest[j - 1].id == out.0[i].id);
                let w = choose|w: int| 0 <= w < rest.len() && out.0[i] == rest[w];
                assert(out.0[i] == subs[w + 1]);
            }
        }
    }
}

/// Any filter of a subtask table with unique ids keeps ids unique.
pub proof fn lemma_filter_subtasks_unique(s: Seq<Subtask>, pred: spec_fn(Subtask) -> bool)
    requires
        crate::storage::unique_subtask_ids(s),
    ensures
        crate::storage::unique_subtask_ids(s.filter(pred)),
    decreases s.len(),
{
    reveal(Seq::filter);
    if s.len() == 0 {
    } else {
        let rest = s.drop_last();
        assert(crate::storage::unique_subtask_ids(rest)) by {
            assert forall|i: int, j: int| 0 <= i < j < rest.len() implies rest[i].id != rest[j].id
                by {
                assert(rest[i] == s[i] && rest[j] == s[j]);
            }
        }
        lemma_filter_subtasks_unique(rest, pred);
        lemma_filter_elements(rest, pred);
        if pred(s.last()) {
            assert(s.filter(pred) == rest.filter(pred).push(s.last()));
            assert forall|i: int, j: int|
                0 <= i < j < s.filter(pred).len() implies s.filter(pred)[i].id != s.filter(
                pred,
            )[j].id by {
                if j < rest.filter(pred).len() {
                } else {
                    assert(s.filter(pred)[j] == s.last());
                    assert(rest.contains(rest.filter(pred)[i]));
                    let w = choose|w: int|
                        0 <= w < rest.len() && rest[w] == rest.filter(pred)[i];
                    assert(s[w] == rest.filter(pred)[i]);
                    assert(s[w].id != s[s.len() - 1].id);
                }
            }
        } else {
            assert(s.filter(pred) == rest.filter(pred));
        }
    }
}

/// Soft-deleting a task leaves a direct subtask load for its id carrying
/// exactly its prior subtasks, less the soft-deleted ones and with their
/// update instants refreshed by the delete-save: orphan retention in full.
/// The task must own its relation rows: every stored pair for its id points
/// at one of its attached subtasks, as a save of the task leaves them.
pub proof fn law_soft_delete_load_exact(
    pre: Storage,
    post: Storage,
    t: Task,
    d: i64,
    now: i64,
    subs: Seq<Subtask>,
)
    requires
        pre.wf(),
        forall|a: int, b: int| 0 <= a < b < t.subtasks@.len() ==> t.subtasks@[a].id != t.subtasks@[b].id,
        forall|c: u128|
            #[trigger] has_pair(pre.rela_task_subtask@, t.id, c) ==> exists|j: int|
                0 <= j < t.subtasks@.len() && (#[trigger] t.subtasks@[j]).id == c,
        saved_task_effect(pre, post, t.marked_deleted(d), now),
        subtask_listing_of(post, t.id, subs),
    ensures
        subs.to_multiset() == t.refreshed_subtasks(now).filter(
            crate::subtask_store::live_subtask_pred(),
        ).to_multiset(),
{
    broadcast use vstd::seq_lib::group_filter_ensures;
    broadcast use vstd::multiset::group_multiset_axioms;

    let td = t.marked_deleted(d);
    let refreshed = td.refreshed_subtasks(now);
    assert(td.subtasks == t.subtasks);
    assert(refreshed == t.refreshed_subtasks(now));
    assert(td.id == t.id);
    assert forall|a: int, b: int| 0 <= a < b < refreshed.len() implies refreshed[a].id
        != refreshed[b].id by {
        assert(refreshed[a] == t.subtasks@[a].refreshed(now));
        assert(refreshed[b] == t.subtasks@[b].refreshed(now));
    }

    let table = post.subtasks@;
    let rels2 = post.rela_task_subtask@;
    lemma_cascade_pairs(pre.subtasks@, pre.rela_task_subtask@, refreshed, td.id);
    lemma_cascade_member_rows(pre.subtasks@, pre.rela_task_subtask@, refreshed, td.id);

    let pred = related_live(rels2, t.id);
    let fseq = table.filter(pred);
    assert(fseq == live_subtasks_of(post, t.id));
    let livep = crate::subtask_store::live_subtask_pred();
    let target = refreshed.filter(livep);

    lemma_filter_subtasks_unique(table, pred);
    assert(fseq.no_duplicates()) by {
        assert forall|i: int, j: int|
            0 <= i < fseq.len() && 0 <= j < fseq.len() && i != j implies fseq[i] != fseq[j] by {
            if i < j {
                assert(fseq[i].id != fseq[j].id);
            } else {
                assert(fseq[j].id != fseq[i].id);
            }
        }
    }
    fseq.lemma_multiset_has_no_duplicates();

    lemma_filter_subtasks_unique(refreshed, livep);
    assert(target.no_duplicates()) by {
        assert forall|i: int, j: int|
            0 <= i < target.len() && 0 <= j < target.len() && i != j implies target[i]
            != target[j] by {
            if i < j {
                assert(target[i].id != target[j].id);
            } else {
                assert(target[j].id != target[i].id);
            }
        }
    }
    target.lemma_multiset_has_no_duplicates();

    lemma_filter_elements(table, pred);
    lemma_filter_elements(refreshed, livep);

    assert forall|x: Subtask| fseq.contains(x) implies target.contains(x) by {
        let w = choose|w: int| 0 <= w < fseq.len() && fseq[w] == x;
        assert(pred(fseq[w]));
        assert(x.deleted_at is None && has_pair(rels2, t.id, x.id));
        assert(has_pair(pre.rela_task_subtask@, t.id, x.id) || exists|j: int|
            0 <= j < refreshed.len() && (#[trigger] refreshed[j]).id == x.id);
        if has_pair(pre.rela_task_subtask@, t.id, x.id) {
            let j = choose|j: int| 0 <= j < t.subtasks@.len() && t.subtasks@[j].id == x.id;
            assert(refreshed[j] == t.subtasks@[j].refreshed(now));
            assert(refreshed[j].id == x.id);
        }
        assert(table.contains(fseq[w]));
        let k = choose|k: int| 0 <= k < table.len() && table[k] == x;
        assert(exists|j: int| 0 <= j < refreshed.len() && table[k] == refreshed[j]);
        let j = choose|j: int| 0 <= j < refreshed.len() && table[k] == refreshed[j];
        assert(livep(refreshed[j]));
        lemma_filter_has_index(refreshed, livep, j);
    }

    assert forall|x: Subtask| target.contains(x) implies fseq.contains(x) by {
        let w = choose|w: int| 0 <= w < target.len() && target[w] == x;
        assert(livep(target[w]));
        assert(refreshed.contains(target[w]));
        let j = choose|j: int| 0 <= j < refreshed.len() && refreshed[j] == x;
        lemma_cascade_effects(pre.subtasks@, pre.rela_task_subtask@, refreshed, td.id, j);
        let k = choose|k: int| 0 <= k < table.len() && table[k] == refreshed[j];
        assert(pred(table[k]));
        lemma_filter_has_index(table, pred, k);
    }

    assert(fseq.to_multiset() =~= target.to_multiset()) by {
        assert forall|x: Subtask| fseq.to_multiset().count(x) == target.to_multiset().count(x) by {
            broadcast use vstd::seq_lib::group_to_multiset_ensures;

            if fseq.contains(x) {
                assert(fseq.to_multiset().count(x) == 1);
                assert(target.contains(x));
                assert(target.to_multiset().count(x) == 1);
            } else {
                assert(!target.contains(x));
                assert(fseq.to_multiset().count(x) == 0);
                assert(target.to_multiset().count(x) == 0);
            }
        }
    }
    assert(subs.to_multiset() == fseq.to_multiset());
}

/// Saving a task twice with the same id leaves exactly one task with that id
/// in the listing, carrying the fields of the second save: the upsert is
/// idempotent by id.
pub proof fn law_repeated_save_keeps_one_row(rows: Seq<TaskRow>, r1: TaskRow, r2: TaskRow)
    requires
        unique_task_ids(rows),
        r1.id == r2.id,
        r2.deleted_at is None,
    ensures
        ({
            let live = live_task_rows(upsert_task_row(upsert_task_row(rows, r1), r2));
            &&& exists|i: int| 0 <= i < live.len() && #[trigger] live[i] == r2
            &&& forall|i: int, j: int|
                0 <= i < live.len() && 0 <= j < live.len() && (#[trigger] live[i]).id == r2.id && (
                #[trigger] live[j]).id == r2.id ==> i == j && live[i] == r2
        }),
{
    let s1 = upsert_task_row(rows, r1);
    let s2 = upsert_task_row(s1, r2);
    crate::storage::lemma_upsert_task_row(rows, r1);
    crate::storage::lemma_upsert_task_row(s1, r2);

    // Every row of s2 with the id equals r2.
    assert(has_task_id(s1, r2.id));
    let k = crate::storage::task_index_of(s1, r2.id);
    assert(s2 == s1.update(k, r2));
    assert forall|i: int| 0 <= i < s2.len() && (#[trigger] s2[i]).id == r2.id implies s2[i] == r2
        by {
        if i != k {
            assert(s2[i] == s1[i]);
            assert(s1[k].id == r2.id);
        }
    }

    let live = live_task_rows(s2);
    lemma_live_task_rows_unique(s2);
    lemma_filter_elements(s2, live_row_pred());
    assert(live_row_pred()(s2[k]));
    lemma_filter_has_index(s2, live_row_pred(), k);
    assert(exists|i: int| 0 <= i < live.len() && #[trigger] live[i] == r2);
    assert forall|i: int, j: int|
        0 <= i < live.len() && 0 <= j < live.len() && (#[trigger] live[i]).id == r2.id && (
        #[trigger] live[j]).id == r2.id implies i == j && live[i] == r2 by {
        assert(s2.contains(live[i]));
        assert(s2.contains(live[j]));
        let wi = choose|w: int| 0 <= w < s2.len() && s2[w] == live[i];
        assert(s2[wi] == live[i] && s2[wi].id == r2.id);
        assert(live[i] == r2);
        assert(live[j] == r2);
        if i != j {
            assert(live[i].id != live[j].id);
        }
    }
}

/// Upserting the same relation pair twice has the effect of upserting it
/// once, and leaves the pair at exactly one index of the table.
pub proof fn law_relation_upsert_idempotent(rels: Seq<Relation>, parent_id: u128, child_id: u128)
    requires
        unique_pairs(rels),
    ensures
        insert_pair(insert_pair(rels, parent_id, child_id), parent_id, child_id) == insert_pair(
            rels,
            parent_id,
            child_id,
        ),
        ({
            let out = insert_pair(rels, parent_id, child_id);
            exists|i: int|
                0 <= i < out.len() && #[trigger] out[i] == (Relation { parent_id, child_id })
                    && forall|j: int|
                    0 <= j < out.len() && out[j] == (Relation { parent_id, child_id }) ==> j == i
        }),
{
    let rel = Relation { parent_id, child_id };
    let out = insert_pair(rels, parent_id, child_id);
    crate::storage::lemma_insert_pair(rels, parent_id, child_id);
    assert(has_pair(out, parent_id, child_id));
    let i = choose|i: int| 0 <= i < out.len() && out[i] == rel;
    assert forall|j: int| 0 <= j < out.len() && out[j] == rel implies j == i by {
        if j != i {
            assert(out[i] != out[j]);
        }
    }
    assert(0 <= i < out.len() && out[i] == rel && forall|j: int|
        0 <= j < out.len() && out[j] == rel ==> j == i);
}

} // verus!
