//! The storage handle: one value holding every table of the store.
//!
//! One row per task, subtask and group, plus two pure association tables
//! keyed by their id pair. The handle is passed explicitly into every store
//! operation. Its well-formedness (`Storage::wf`) asserts that ids are
//! unique per table, that relation pairs are unique, and that relation rows
//! reference ids that exist in both tables.

use vstd::prelude::*;

use crate::subtask::Subtask;
use crate::task::Task;
use crate::task_group::TaskGroup;

verus! {

/// A persisted task row: the task without its attached subtasks, which are
/// linked through relation rows instead.
#[derive(Debug, PartialEq)]
pub struct TaskRow {
    pub id: u128,
    pub completed: bool,
    pub description: String,
    pub details: Option<String>,
    pub start_datetime: Option<i64>,
    pub end_datetime: Option<i64>,
    pub progress: u32,
    pub created_at: i64,
    pub updated_at: Option<i64>,
    pub deleted_at: Option<i64>,
}

/// A persisted group row: the group without its member ids, which are
/// linked through relation rows instead.
#[derive(Debug, PartialEq)]
pub struct GroupRow {
    pub id: u128,
    pub name: String,
    pub created_at: i64,
    pub updated_at: Option<i64>,
    pub deleted_at: Option<i64>,
}

/// A pure association row: a (parent id, child id) pair with no payload.
#[derive(Clone, Copy, Debug, PartialEq, Eq, Structural)]
pub struct Relation {
    pub parent_id: u128,
    pub child_id: u128,
}

/// The row a task is persisted as.
pub open spec fn task_row_of(t: Task) -> TaskRow {
    TaskRow {
        id: t.id,
        completed: t.completed,
        description: t.description,
        details: t.details,
        start_datetime: t.start_datetime,
        end_datetime: t.end_datetime,
        progress: t.progress,
        created_at: t.created_at,
        updated_at: t.updated_at,
        deleted_at: t.deleted_at,
    }
}

/// The row a group is persisted as.
pub open spec fn group_row_of(g: TaskGroup) -> GroupRow {
    GroupRow {
        id: g.id,
        name: g.name,
        created_at: g.created_at,
        updated_at: g.updated_at,
        deleted_at: g.deleted_at,
    }
}

// ---------------------------------------------------------------------------
// Table predicates: uniqueness, membership, lookup.
// ---------------------------------------------------------------------------

pub open spec fn unique_task_ids(rows: Seq<TaskRow>) -> bool {
    forall|i: int, j: int| 0 <= i < j < rows.len() ==> rows[i].id != rows[j].id
}

pub open spec fn unique_subtask_ids(rows: Seq<Subtask>) -> bool {
    forall|i: int, j: int| 0 <= i < j < rows.len() ==> rows[i].id != rows[j].id
}

pub open spec fn unique_group_ids(rows: Seq<GroupRow>) -> bool {
    forall|i: int, j: int| 0 <= i < j < rows.len() ==> rows[i].id != rows[j].id
}

pub open spec fn unique_pairs(rels: Seq<Relation>) -> bool {
    forall|i: int, j: int| 0 <= i < j < rels.len() ==> rels[i] != rels[j]
}

pub open spec fn has_task_id(rows: Seq<TaskRow>, id: u128) -> bool {
    exists|i: int| 0 <= i < rows.len() && rows[i].id == id
}

pub open spec fn has_subtask_id(rows: Seq<Subtask>, id: u128) -> bool {
    exists|i: int| 0 <= i < rows.len() && rows[i].id == id
}

pub open spec fn has_group_id(rows: Seq<GroupRow>, id: u128) -> bool {
    exists|i: int| 0 <= i < rows.len() && rows[i].id == id
}

pub open spec fn has_pair(rels: Seq<Relation>, parent_id: u128, child_id: u128) -> bool {
    exists|i: int|
        0 <= i < rels.len() && rels[i] == (Relation { parent_id, child_id })
}

pub open spec fn task_index_of(rows: Seq<TaskRow>, id: u128) -> int {
    choose|i: int| 0 <= i < rows.len() && rows[i].id == id
}

pub open spec fn subtask_index_of(rows: Seq<Subtask>, id: u128) -> int {
    choose|i: int| 0 <= i < rows.len() && rows[i].id == id
}

pub open spec fn group_index_of(rows: Seq<GroupRow>, id: u128) -> int {
    choose|i: int| 0 <= i < rows.len() && rows[i].id == id
}

pub open spec fn pair_index_of(rels: Seq<Relation>, parent_id: u128, child_id: u128) -> int {
    choose|i: int| 0 <= i < rels.len() && rels[i] == (Relation { parent_id, child_id })
}

// ---------------------------------------------------------------------------
// Table operations, at the specification level.
// ---------------------------------------------------------------------------

/// Upsert by id: replace the row that carries `row.id`, or append the row if
/// no row carries it.
pub open spec fn upsert_task_row(rows: Seq<TaskRow>, row: TaskRow) -> Seq<TaskRow> {
    if has_task_id(rows, row.id) {
        rows.update(task_index_of(rows, row.id), row)
    } else {
        rows.push(row)
    }
}

pub open spec fn upsert_subtask_row(rows: Seq<Subtask>, row: Subtask) -> Seq<Subtask> {
    if has_subtask_id(rows, row.id) {
        rows.update(subtask_index_of(rows, row.id), row)
    } else {
        rows.push(row)
    }
}

pub open spec fn upsert_group_row(rows: Seq<GroupRow>, row: GroupRow) -> Seq<GroupRow> {
    if has_group_id(rows, row.id) {
        rows.update(group_index_of(rows, row.id), row)
    } else {
        rows.push(row)
    }
}

/// Idempotent pair insertion: appending the pair only when it is absent.
pub open spec fn insert_pair(rels: Seq<Relation>, parent_id: u128, child_id: u128) -> Seq<
    Relation,
> {
    if has_pair(rels, parent_id, child_id) {
        rels
    } else {
        rels.push(Relation { parent_id, child_id })
    }
}

/// Idempotent pair removal: dropping the pair when it is present.
pub open spec fn remove_pair(rels: Seq<Relation>, parent_id: u128, child_id: u128) -> Seq<
    Relation,
> {
    if has_pair(rels, parent_id, child_id) {
        rels.remove(pair_index_of(rels, parent_id, child_id))
    } else {
        rels
    }
}

pub open spec fn parent_pred(parent_id: u128) -> spec_fn(Relation) -> bool {
    |r: Relation| r.parent_id == parent_id
}

/// The child ids of a parent, in table order.
pub open spec fn children_of(rels: Seq<Relation>, parent_id: u128) -> Seq<u128> {
    rels.filter(parent_pred(parent_id)).map_values(|r: Relation| r.child_id)
}

// ---------------------------------------------------------------------------
// The handle.
// ---------------------------------------------------------------------------

/// The whole store: every table in one value.
pub struct Storage {
    pub tasks: Vec<TaskRow>,
    pub subtasks: Vec<Subtask>,
    pub rela_task_subtask: Vec<Relation>,
    pub task_groups: Vec<GroupRow>,
    pub rela_task_task_group: Vec<Relation>,
}

impl Storage {
    /// Well-formedness: ids unique per table, relation pairs unique, and
    /// every relation row references ids that exist in both tables.
    pub open spec fn wf(self) -> bool {
        &&& unique_task_ids(self.tasks@)
        &&& unique_subtask_ids(self.subtasks@)
        &&& unique_group_ids(self.task_groups@)
        &&& unique_pairs(self.rela_task_subtask@)
        &&& unique_pairs(self.rela_task_task_group@)
        &&& forall|i: int|
            0 <= i < self.rela_task_subtask@.len() ==> has_task_id(
                self.tasks@,
                (#[trigger] self.rela_task_subtask@[i]).parent_id,
            ) && has_subtask_id(self.subtasks@, self.rela_task_subtask@[i].child_id)
        &&& forall|i: int|
            0 <= i < self.rela_task_task_group@.len() ==> has_group_id(
                self.task_groups@,
                (#[trigger] self.rela_task_task_group@[i]).parent_id,
            ) && has_task_id(self.tasks@, self.rela_task_task_group@[i].child_id)
    }

    /// An empty store.
    pub fn new() -> (r: Storage)
        ensures
            r.wf(),
            r.tasks@ == Seq::<TaskRow>::empty(),
            r.subtasks@ == Seq::<Subtask>::empty(),
            r.rela_task_subtask@ == Seq::<Relation>::empty(),
            r.task_groups@ == Seq::<GroupRow>::empty(),
            r.rela_task_task_group@ == Seq::<Relation>::empty(),
    {
        Storage {
            tasks: Vec::new(),
            subtasks: Vec::new(),
            rela_task_subtask: Vec::new(),
            task_groups: Vec::new(),
            rela_task_task_group: Vec::new(),
        }
    }
}

// ---------------------------------------------------------------------------
// Executable table lookups and upserts.
// ---------------------------------------------------------------------------

pub(crate) fn find_task_index(rows: &Vec<TaskRow>, id: u128) -> (r: Option<usize>)
    ensures
        match r {
            Some(i) => i < rows@.len() && rows@[i as int].id == id,
            None => !has_task_id(rows@, id),
        },
{
    let mut i: usize = 0;
    while i < rows.len()
        invariant
            i <= rows@.len(),
            forall|k: int| 0 <= k < i ==> rows@[k].id != id,
        decreases rows@.len() - i,
    {
        if rows[i].id == id {
            return Some(i);
        }
        i = i + 1;
    }
    None
}

pub(crate) fn find_subtask_index(rows: &Vec<Subtask>, id: u128) -> (r: Option<usize>)
    ensures
        match r {
            Some(i) => i < rows@.len() && rows@[i as int].id == id,
            None => !has_subtask_id(rows@, id),
        },
{
    let mut i: usize = 0;
    while i < rows.len()
        invariant
            i <= rows@.len(),
            forall|k: int| 0 <= k < i ==> rows@[k].id != id,
        decreases rows@.len() - i,
    {
        if rows[i].id == id {
            return Some(i);
        }
        i = i + 1;
    }
    None
}

pub(crate) fn find_group_index(rows: &Vec<GroupRow>, id: u128) -> (r: Option<usize>)
    ensures
        match r {
            Some(i) => i < rows@.len() && rows@[i as int].id == id,
            None => !has_group_id(rows@, id),
        },
{
    let mut i: usize = 0;
    while i < rows.len()
        invariant
            i <= rows@.len(),
            forall|k: int| 0 <= k < i ==> rows@[k].id != id,
        decreases rows@.len() - i,
    {
        if rows[i].id == id {
            return Some(i);
        }
        i = i + 1;
    }
    None
}

pub(crate) fn find_pair_index(rels: &Vec<Relation>, parent_id: u128, child_id: u128) -> (r:
    Option<usize>)
    ensures
        match r {
            Some(i) => i < rels@.len() && rels@[i as int] == (Relation { parent_id, child_id }),
            None => !has_pair(rels@, parent_id, child_id),
        },
{
    let mut i: usize = 0;
    while i < rels.len()
        invariant
            i <= rels@.len(),
            forall|k: int|
                0 <= k < i ==> rels@[k] != (Relation { parent_id, child_id }),
        decreases rels@.len() - i,
    {
        if rels[i].parent_id == parent_id && rels[i].child_id == child_id {
            return Some(i);
        }
        i = i + 1;
    }
    None
}

/// Whether the relation table holds the pair.
pub fn rel_contains(rels: &Vec<Relation>, parent_id: u128, child_id: u128) -> (r: bool)
    ensures
        r == has_pair(rels@, parent_id, child_id),
{
    find_pair_index(rels, parent_id, child_id).is_some()
}

/// The child ids related to a parent, in table order.
pub(crate) fn collect_children(rels: &Vec<Relation>, parent_id: u128) -> (r: Vec<u128>)
    ensures
        r@ == children_of(rels@, parent_id),
{
    let ghost all = rels@;
    let ghost pred = parent_pred(parent_id);
    let mut out: Vec<u128> = Vec::new();
    let mut i: usize = 0;
    while i < rels.len()
        invariant
            i <= all.len(),
            rels@ == all,
            pred == parent_pred(parent_id),
            out@ == children_of(all.take(i as int), parent_id),
        decreases all.len() - i,
    {
        proof {
            reveal(Seq::filter);
            assert(all.take(i + 1 as int).drop_last() == all.take(i as int));
            assert(all.take(i + 1 as int).last() == all[i as int]);
        }
        if rels[i].parent_id == parent_id {
            out.push(rels[i].child_id);
            proof {
                assert(all.take(i + 1 as int).filter(pred) == all.take(i as int).filter(
                    pred,
                ).push(all[i as int]));
                assert(children_of(all.take(i + 1 as int), parent_id) =~= children_of(
                    all.take(i as int),
                    parent_id,
                ).push(all[i as int].child_id));
            }
        } else {
            proof {
                assert(all.take(i + 1 as int).filter(pred) == all.take(i as int).filter(pred));
            }
        }
        i = i + 1;
    }
    proof {
        assert(all.take(all.len() as int) == all);
    }
    out
}

pub(crate) fn upsert_task_in(rows: &mut Vec<TaskRow>, row: TaskRow)
    requires
        unique_task_ids(old(rows)@),
    ensures
        final(rows)@ == upsert_task_row(old(rows)@, row),
        unique_task_ids(final(rows)@),
{
    proof {
        lemma_upsert_task_row(old(rows)@, row);
    }
    match find_task_index(rows, row.id) {
        Some(i) => {
            proof {
                let k = task_index_of(rows@, row.id);
                assert(0 <= k < rows@.len() && rows@[k].id == row.id);
                assert(k == i as int);
            }
            rows[i] = row;
        },
        None => {
            rows.push(row);
        },
    }
}

pub(crate) fn upsert_subtask_in(rows: &mut Vec<Subtask>, row: Subtask)
    requires
        unique_subtask_ids(old(rows)@),
    ensures
        final(rows)@ == upsert_subtask_row(old(rows)@, row),
        unique_subtask_ids(final(rows)@),
{
    proof {
        lemma_upsert_subtask_row(old(rows)@, row);
    }
    match find_subtask_index(rows, row.id) {
        Some(i) => {
            proof {
                let k = subtask_index_of(rows@, row.id);
                assert(0 <= k < rows@.len() && rows@[k].id == row.id);
                assert(k == i as int);
            }
            rows[i] = row;
        },
        None => {
            rows.push(row);
        },
    }
}

pub(crate) fn upsert_group_in(rows: &mut Vec<GroupRow>, row: GroupRow)
    requires
        unique_group_ids(old(rows)@),
    ensures
        final(rows)@ == upsert_group_row(old(rows)@, row),
        unique_group_ids(final(rows)@),
{
    proof {
        lemma_upsert_group_row(old(rows)@, row);
    }
    match find_group_index(rows, row.id) {
        Some(i) => {
            proof {
                let k = group_index_of(rows@, row.id);
                assert(0 <= k < rows@.len() && rows@[k].id == row.id);
                assert(k == i as int);
            }
            rows[i] = row;
        },
        None => {
            rows.push(row);
        },
    }
}

pub(crate) fn insert_pair_in(rels: &mut Vec<Relation>, parent_id: u128, child_id: u128)
    requires
        unique_pairs(old(rels)@),
    ensures
        final(rels)@ == insert_pair(old(rels)@, parent_id, child_id),
        unique_pairs(final(rels)@),
{
    proof {
        lemma_insert_pair(old(rels)@, parent_id, child_id);
    }
    match find_pair_index(rels, parent_id, child_id) {
        Some(_) => {},
        None => {
            rels.push(Relation { parent_id, child_id });
        },
    }
}

pub(crate) fn remove_pair_in(rels: &mut Vec<Relation>, parent_id: u128, child_id: u128)
    requires
        unique_pairs(old(rels)@),
    ensures
        final(rels)@ == remove_pair(old(rels)@, parent_id, child_id),
        unique_pairs(final(rels)@),
{
    proof {
        lemma_remove_pair(old(rels)@, parent_id, child_id);
    }
    match find_pair_index(rels, parent_id, child_id) {
        Some(i) => {
            proof {
                let k = pair_index_of(rels@, parent_id, child_id);
                assert(0 <= k < rels@.len() && rels@[k] == (Relation { parent_id, child_id }));
                assert(k == i as int);
            }
            rels.remove(i);
        },
        None => {},
    }
}

// ---------------------------------------------------------------------------
// The runtime well-formedness check.
// ---------------------------------------------------------------------------

fn task_ids_unique(rows: &Vec<TaskRow>) -> (r: bool)
    ensures
        r == unique_task_ids(rows@),
{
    let mut i: usize = 0;
    while i < rows.len()
        invariant
            i <= rows@.len(),
            forall|a: int, b: int| 0 <= a < b < rows@.len() && a < i ==> rows@[a].id != rows@[b].id,
        decreases rows@.len() - i,
    {
        let mut j: usize = i + 1;
        while j < rows.len()
            invariant
                i < j <= rows@.len() || (i + 1 == j && j >= rows@.len()),
                i < rows@.len(),
                forall|b: int| i < b < j ==> rows@[i as int].id != rows@[b].id,
            decreases rows@.len() - j,
        {
            if rows[i].id == rows[j].id {
                return false;
            }
            j = j + 1;
        }
        i = i + 1;
    }
    true
}

fn subtask_ids_unique(rows: &Vec<Subtask>) -> (r: bool)
    ensures
        r == unique_subtask_ids(rows@),
{
    let mut i: usize = 0;
    while i < rows.len()
        invariant
            i <= rows@.len(),
            forall|a: int, b: int| 0 <= a < b < rows@.len() && a < i ==> rows@[a].id != rows@[b].id,
        decreases rows@.len() - i,
    {
        let mut j: usize = i + 1;
        while j < rows.len()
            invariant
                i < j <= rows@.len() || (i + 1 == j && j >= rows@.len()),
                i < rows@.len(),
                forall|b: int| i < b < j ==> rows@[i as int].id != rows@[b].id,
            decreases rows@.len() - j,
        {
            if rows[i].id == rows[j].id {
                return false;
            }
            j = j + 1;
        }
        i = i + 1;
    }
    true
}

fn group_ids_unique(rows: &Vec<GroupRow>) -> (r: bool)
    ensures
        r == unique_group_ids(rows@),
{
    let mut i: usize = 0;
    while i < rows.len()
        invariant
            i <= rows@.len(),
            forall|a: int, b: int| 0 <= a < b < rows@.len() && a < i ==> rows@[a].id != rows@[b].id,
        decreases rows@.len() - i,
    {
        let mut j: usize = i + 1;
        while j < rows.len()
            invariant
                i < j <= rows@.len() || (i + 1 == j && j >= rows@.len()),
                i < rows@.len(),
                forall|b: int| i < b < j ==> rows@[i as int].id != rows@[b].id,
            decreases rows@.len() - j,
        {
            if rows[i].id == rows[j].id {
                return false;
            }
            j = j + 1;
        }
        i = i + 1;
    }
    true
}

fn pairs_unique(rels: &Vec<Relation>) -> (r: bool)
    ensures
        r == unique_pairs(rels@),
{
    let mut i: usize = 0;
    while i < rels.len()
        invariant
            i <= rels@.len(),
            forall|a: int, b: int| 0 <= a < b < rels@.len() && a < i ==> rels@[a] != rels@[b],
        decreases rels@.len() - i,
    {
        let mut j: usize = i + 1;
        while j < rels.len()
            invariant
                i < j <= rels@.len() || (i + 1 == j && j >= rels@.len()),
                i < rels@.len(),
                forall|b: int| i < b < j ==> rels@[i as int] != rels@[b],
            decreases rels@.len() - j,
        {
            if rels[i].parent_id == rels[j].parent_id && rels[i].child_id == rels[j].child_id {
                return false;
            }
            j = j + 1;
        }
        i = i + 1;
    }
    true
}

impl Storage {
    /// Decides well-formedness at run time, so that a caller that rebuilt a
    /// store from persisted rows can check it before operating on it.
    pub fn check_wf(&self) -> (r: bool)
        ensures
            r == self.wf(),
    {
        if !task_ids_unique(&self.tasks) {
            return false;
        }
        if !subtask_ids_unique(&self.subtasks) {
            return false;
        }
        if !group_ids_unique(&self.task_groups) {
            return false;
        }
        if !pairs_unique(&self.rela_task_subtask) {
            return false;
        }
        if !pairs_unique(&self.rela_task_task_group) {
            return false;
        }
        let mut i: usize = 0;
        while i < self.rela_task_subtask.len()
            invariant
                i <= self.rela_task_subtask@.len(),
                forall|k: int|
                    0 <= k < i ==> has_task_id(
                        self.tasks@,
                        (#[trigger] self.rela_task_subtask@[k]).parent_id,
                    ) && has_subtask_id(self.subtasks@, self.rela_task_subtask@[k].child_id),
            decreases self.rela_task_subtask@.len() - i,
        {
            if find_task_index(&self.tasks, self.rela_task_subtask[i].parent_id).is_none() {
                return false;
            }
            if find_subtask_index(&self.subtasks, self.rela_task_subtask[i].child_id).is_none() {
                return false;
            }
            i = i + 1;
        }
        let mut j: usize = 0;
        while j < self.rela_task_task_group.len()
            invariant
                j <= self.rela_task_task_group@.len(),
                forall|k: int|
                    0 <= k < j ==> has_group_id(
                        self.task_groups@,
                        (#[trigger] self.rela_task_task_group@[k]).parent_id,
                    ) && has_task_id(self.tasks@, self.rela_task_task_group@[k].child_id),
            decreases self.rela_task_task_group@.len() - j,
        {
            if find_group_index(&self.task_groups, self.rela_task_task_group[j].parent_id).is_none()
            {
                return false;
            }
            if find_task_index(&self.tasks, self.rela_task_task_group[j].child_id).is_none() {
                return false;
            }
            j = j + 1;
        }
        true
    }
}

// ---------------------------------------------------------------------------
// Facts about the table operations.
// ---------------------------------------------------------------------------

/// Upserting a task row keeps ids unique, and the table then carries exactly
/// the old ids plus the row's id.
pub proof fn lemma_upsert_task_row(rows: Seq<TaskRow>, row: TaskRow)
    requires
        unique_task_ids(rows),
    ensures
        unique_task_ids(upsert_task_row(rows, row)),
        forall|id: u128|
            #[trigger] has_task_id(upsert_task_row(rows, row), id) <==> (has_task_id(rows, id)
                || id == row.id),
        has_task_id(upsert_task_row(rows, row), row.id),
{
    let out = upsert_task_row(rows, row);
    if has_task_id(rows, row.id) {
        let k = task_index_of(rows, row.id);
        assert(0 <= k < rows.len() && rows[k].id == row.id);
        assert forall|i: int| 0 <= i < out.len() implies out[i].id == rows[i].id by {
            if i != k {
                assert(out[i] == rows[i]);
            }
        }
        assert forall|id: u128| #[trigger] has_task_id(out, id) implies (has_task_id(rows, id)
            || id == row.id) by {
            let w = choose|i: int| 0 <= i < out.len() && out[i].id == id;
            assert(rows[w].id == id);
        }
        assert forall|id: u128| has_task_id(rows, id) implies #[trigger] has_task_id(out, id) by {
            let w = choose|i: int| 0 <= i < rows.len() && rows[i].id == id;
            assert(out[w].id == id);
        }
        assert(out[k].id == row.id);
    } else {
        assert forall|id: u128| #[trigger] has_task_id(out, id) implies (has_task_id(rows, id)
            || id == row.id) by {
            let w = choose|i: int| 0 <= i < out.len() && out[i].id == id;
            if w < rows.len() {
                assert(rows[w].id == id);
            }
        }
        assert forall|id: u128| has_task_id(rows, id) implies #[trigger] has_task_id(out, id) by {
            let w = choose|i: int| 0 <= i < rows.len() && rows[i].id == id;
            assert(out[w].id == id);
        }
        assert(out[rows.len() as int].id == row.id);
        assert forall|i: int, j: int| 0 <= i < j < out.len() implies out[i].id != out[j].id by {
            if j == rows.len() as int {
                assert(out[i].id == rows[i].id);
                assert(!has_task_id(rows, row.id));
                assert(rows[i].id != row.id);
            }
        }
    }
}

/// Upserting a subtask row keeps ids unique, and the table then carries
/// exactly the old ids plus the row's id.
pub proof fn lemma_upsert_subtask_row(rows: Seq<Subtask>, row: Subtask)
    requires
        unique_subtask_ids(rows),
    ensures
        unique_subtask_ids(upsert_subtask_row(rows, row)),
        forall|id: u128|
            #[trigger] has_subtask_id(upsert_subtask_row(rows, row), id) <==> (has_subtask_id(
                rows,
                id,
            ) || id == row.id),
        has_subtask_id(upsert_subtask_row(rows, row), row.id),
{
    let out = upsert_subtask_row(rows, row);
    if has_subtask_id(rows, row.id) {
        let k = subtask_index_of(rows, row.id);
        assert(0 <= k < rows.len() && rows[k].id == row.id);
        assert forall|i: int| 0 <= i < out.len() implies out[i].id == rows[i].id by {
            if i != k {
                assert(out[i] == rows[i]);
            }
        }
        assert forall|id: u128| #[trigger] has_subtask_id(out, id) implies (has_subtask_id(
            rows,
            id,
        ) || id == row.id) by {
            let w = choose|i: int| 0 <= i < out.len() && out[i].id == id;
            assert(rows[w].id == id);
        }
        assert forall|id: u128| has_subtask_id(rows, id) implies #[trigger] has_subtask_id(
            out,
            id,
        ) by {
            let w = choose|i: int| 0 <= i < rows.len() && rows[i].id == id;
            assert(out[w].id == id);
        }
        assert(out[k].id == row.id);
    } else {
        assert forall|id: u128| #[trigger] has_subtask_id(out, id) implies (has_subtask_id(
            rows,
            id,
        ) || id == row.id) by {
            let w = choose|i: int| 0 <= i < out.len() && out[i].id == id;
            if w < rows.len() {
                assert(rows[w].id == id);
            }
        }
        assert forall|id: u128| has_subtask_id(rows, id) implies #[trigger] has_subtask_id(
            out,
            id,
        ) by {
            let w = choose|i: int| 0 <= i < rows.len() && rows[i].id == id;
            assert(out[w].id == id);
        }
        assert(out[rows.len() as int].id == row.id);
        assert forall|i: int, j: int| 0 <= i < j < out.len() implies out[i].id != out[j].id by {
            if j == rows.len() as int {
                assert(out[i].id == rows[i].id);
                assert(rows[i].id != row.id);
            }
        }
    }
}

/// Upserting a group row keeps ids unique, and the table then carries
/// exactly the old ids plus the row's id.
pub proof fn lemma_upsert_group_row(rows: Seq<GroupRow>, row: GroupRow)
    requires
        unique_group_ids(rows),
    ensures
        unique_group_ids(upsert_group_row(rows, row)),
        forall|id: u128|
            #[trigger] has_group_id(upsert_group_row(rows, row), id) <==> (has_group_id(rows, id)
                || id == row.id),
        has_group_id(upsert_group_row(rows, row), row.id),
{
    let out = upsert_group_row(rows, row);
    if has_group_id(rows, row.id) {
        let k = group_index_of(rows, row.id);
        assert(0 <= k < rows.len() && rows[k].id == row.id);
        assert forall|i: int| 0 <= i < out.len() implies out[i].id == rows[i].id by {
            if i != k {
                assert(out[i] == rows[i]);
            }
        }
        assert forall|id: u128| #[trigger] has_group_id(out, id) implies (has_group_id(rows, id)
            || id == row.id) by {
            let w = choose|i: int| 0 <= i < out.len() && out[i].id == id;
            assert(rows[w].id == id);
        }
        assert forall|id: u128| has_group_id(rows, id) implies #[trigger] has_group_id(out, id) by {
            let w = choose|i: int| 0 <= i < rows.len() && rows[i].id == id;
            assert(out[w].id == id);
        }
        assert(out[k].id == row.id);
    } else {
        assert forall|id: u128| #[trigger] has_group_id(out, id) implies (has_group_id(rows, id)
            || id == row.id) by {
            let w = choose|i: int| 0 <= i < out.len() && out[i].id == id;
            if w < rows.len() {
                assert(rows[w].id == id);
            }
        }
        assert forall|id: u128| has_group_id(rows, id) implies #[trigger] has_group_id(out, id) by {
            let w = choose|i: int| 0 <= i < rows.len() && rows[i].id == id;
            assert(out[w].id == id);
        }
        assert(out[rows.len() as int].id == row.id);
        assert forall|i: int, j: int| 0 <= i < j < out.len() implies out[i].id != out[j].id by {
            if j == rows.len() as int {
                assert(out[i].id == rows[i].id);
                assert(rows[i].id != row.id);
            }
        }
    }
}

/// Inserting a pair keeps pairs unique, and the table then holds exactly the
/// old pairs plus the inserted one.
pub proof fn lemma_insert_pair(rels: Seq<Relation>, parent_id: u128, child_id: u128)
    requires
        unique_pairs(rels),
    ensures
        unique_pairs(insert_pair(rels, parent_id, child_id)),
        forall|p: u128, c: u128|
            #[trigger] has_pair(insert_pair(rels, parent_id, child_id), p, c) <==> (has_pair(
                rels,
                p,
                c,
            ) || (p == parent_id && c == child_id)),
        has_pair(insert_pair(rels, parent_id, child_id), parent_id, child_id),
{
    let out = insert_pair(rels, parent_id, child_id);
    let rel = Relation { parent_id, child_id };
    if has_pair(rels, parent_id, child_id) {
        assert forall|p: u128, c: u128| #[trigger] has_pair(out, p, c) <==> (has_pair(rels, p, c)
            || (p == parent_id && c == child_id)) by {
            if p == parent_id && c == child_id {
                assert(has_pair(rels, p, c));
            }
        }
    } else {
        assert forall|p: u128, c: u128| #[trigger] has_pair(out, p, c) implies (has_pair(rels, p, c)
            || (p == parent_id && c == child_id)) by {
            let w = choose|i: int| 0 <= i < out.len() && out[i] == (Relation { parent_id: p, child_id: c });
            if w < rels.len() {
                assert(rels[w] == (Relation { parent_id: p, child_id: c }));
            }
        }
        assert forall|p: u128, c: u128| has_pair(rels, p, c) implies #[trigger] has_pair(
            out,
            p,
            c,
        ) by {
            let w = choose|i: int| 0 <= i < rels.len() && rels[i] == (Relation { parent_id: p, child_id: c });
            assert(out[w] == (Relation { parent_id: p, child_id: c }));
        }
        assert(out[rels.len() as int] == rel);
        assert forall|i: int, j: int| 0 <= i < j < out.len() implies out[i] != out[j] by {
            if j == rels.len() as int {
                assert(out[i] == rels[i]);
                assert(!has_pair(rels, rel.parent_id, rel.child_id));
                assert(rels[i] != rel);
            }
        }
    }
}

/// Removing a pair keeps pairs unique, and the table then holds exactly the
/// old pairs less the removed one.
pub proof fn lemma_remove_pair(rels: Seq<Relation>, parent_id: u128, child_id: u128)
    requires
        unique_pairs(rels),
    ensures
        unique_pairs(remove_pair(rels, parent_id, child_id)),
        forall|p: u128, c: u128|
            #[trigger] has_pair(remove_pair(rels, parent_id, child_id), p, c) <==> (has_pair(
                rels,
                p,
                c,
            ) && !(p == parent_id && c == child_id)),
{
    let out = remove_pair(rels, parent_id, child_id);
    let rel = Relation { parent_id, child_id };
    if has_pair(rels, parent_id, child_id) {
        let k = pair_index_of(rels, parent_id, child_id);
        assert(0 <= k < rels.len() && rels[k] == rel);
        assert forall|i: int, j: int| 0 <= i < j < out.len() implies out[i] != out[j] by {
            assert(out[i] == (if i < k { rels[i] } else { rels[i + 1] }));
            assert(out[j] == (if j < k { rels[j] } else { rels[j + 1] }));
        }
        assert forall|p: u128, c: u128| #[trigger] has_pair(out, p, c) implies (has_pair(rels, p, c)
            && !(p == parent_id && c == child_id)) by {
            let q = Relation { parent_id: p, child_id: c };
            let w = choose|i: int| 0 <= i < out.len() && out[i] == q;
            let w0 = if w < k { w } else { w + 1 };
            assert(rels[w0] == q);
            if q == rel {
                assert(w0 != k);
                assert(rels[w0] == rels[k]);
            }
        }
        assert forall|p: u128, c: u128|
            has_pair(rels, p, c) && !(p == parent_id && c == child_id) implies #[trigger] has_pair(
            out,
            p,
            c,
        ) by {
            let q = Relation { parent_id: p, child_id: c };
            let w = choose|i: int| 0 <= i < rels.len() && rels[i] == q;
            assert(w != k);
            if w < k {
                assert(out[w] == q);
            } else {
                assert(out[w - 1] == q);
            }
        }
    }
}

// ---------------------------------------------------------------------------
// Well-formedness is preserved by every table operation.
// ---------------------------------------------------------------------------

/// Upserting a task row preserves well-formedness.
pub proof fn lemma_wf_after_task_upsert(pre: Storage, post: Storage, row: TaskRow)
    requires
        pre.wf(),
        post.tasks@ == upsert_task_row(pre.tasks@, row),
        post.subtasks@ == pre.subtasks@,
        post.rela_task_subtask@ == pre.rela_task_subtask@,
        post.task_groups@ == pre.task_groups@,
        post.rela_task_task_group@ == pre.rela_task_task_group@,
    ensures
        post.wf(),
{
    lemma_upsert_task_row(pre.tasks@, row);
    assert forall|i: int| 0 <= i < post.rela_task_subtask@.len() implies has_task_id(
        post.tasks@,
        (#[trigger] post.rela_task_subtask@[i]).parent_id,
    ) && has_subtask_id(post.subtasks@, post.rela_task_subtask@[i].child_id) by {
        assert(has_task_id(pre.tasks@, pre.rela_task_subtask@[i].parent_id));
    }
    assert forall|i: int| 0 <= i < post.rela_task_task_group@.len() implies has_group_id(
        post.task_groups@,
        (#[trigger] post.rela_task_task_group@[i]).parent_id,
    ) && has_task_id(post.tasks@, post.rela_task_task_group@[i].child_id) by {
        assert(has_task_id(pre.tasks@, pre.rela_task_task_group@[i].child_id));
    }
}

/// Upserting a subtask row preserves well-formedness.
pub proof fn lemma_wf_after_subtask_upsert(pre: Storage, post: Storage, row: Subtask)
    requires
        pre.wf(),
        post.subtasks@ == upsert_subtask_row(pre.subtasks@, row),
        post.tasks@ == pre.tasks@,
        post.rela_task_subtask@ == pre.rela_task_subtask@,
        post.task_groups@ == pre.task_groups@,
        post.rela_task_task_group@ == pre.rela_task_task_group@,
    ensures
        post.wf(),
{
    lemma_upsert_subtask_row(pre.subtasks@, row);
    assert forall|i: int| 0 <= i < post.rela_task_subtask@.len() implies has_task_id(
        post.tasks@,
        (#[trigger] post.rela_task_subtask@[i]).parent_id,
    ) && has_subtask_id(post.subtasks@, post.rela_task_subtask@[i].child_id) by {
        assert(has_subtask_id(pre.subtasks@, pre.rela_task_subtask@[i].child_id));
    }
}

/// Upserting a group row preserves well-formedness.
pub proof fn lemma_wf_after_group_upsert(pre: Storage, post: Storage, row: GroupRow)
    requires
        pre.wf(),
        post.task_groups@ == upsert_group_row(pre.task_groups@, row),
        post.tasks@ == pre.tasks@,
        post.subtasks@ == pre.subtasks@,
        post.rela_task_subtask@ == pre.rela_task_subtask@,
        post.rela_task_task_group@ == pre.rela_task_task_group@,
    ensures
        post.wf(),
{
    lemma_upsert_group_row(pre.task_groups@, row);
    assert forall|i: int| 0 <= i < post.rela_task_task_group@.len() implies has_group_id(
        post.task_groups@,
        (#[trigger] post.rela_task_task_group@[i]).parent_id,
    ) && has_task_id(post.tasks@, post.rela_task_task_group@[i].child_id) by {
        assert(has_group_id(pre.task_groups@, pre.rela_task_task_group@[i].parent_id));
    }
}

/// Inserting a task-subtask pair whose ends exist preserves well-formedness.
pub proof fn lemma_wf_after_ts_pair_insert(
    pre: Storage,
    post: Storage,
    parent_id: u128,
    child_id: u128,
)
    requires
        pre.wf(),
        has_task_id(pre.tasks@, parent_id),
        has_subtask_id(pre.subtasks@, child_id),
        post.rela_task_subtask@ == insert_pair(pre.rela_task_subtask@, parent_id, child_id),
        post.tasks@ == pre.tasks@,
        post.subtasks@ == pre.subtasks@,
        post.task_groups@ == pre.task_groups@,
        post.rela_task_task_group@ == pre.rela_task_task_group@,
    ensures
        post.wf(),
{
    lemma_insert_pair(pre.rela_task_subtask@, parent_id, child_id);
    let r0 = pre.rela_task_subtask@;
    assert forall|i: int| 0 <= i < post.rela_task_subtask@.len() implies has_task_id(
        post.tasks@,
        (#[trigger] post.rela_task_subtask@[i]).parent_id,
    ) && has_subtask_id(post.subtasks@, post.rela_task_subtask@[i].child_id) by {
        if i < r0.len() {
            assert(post.rela_task_subtask@[i] == r0[i]);
        } else {
            assert(post.rela_task_subtask@[i] == (Relation { parent_id, child_id }));
        }
    }
}

/// Inserting a group-task pair whose ends exist preserves well-formedness.
pub proof fn lemma_wf_after_tg_pair_insert(
    pre: Storage,
    post: Storage,
    parent_id: u128,
    child_id: u128,
)
    requires
        pre.wf(),
        has_group_id(pre.task_groups@, parent_id),
        has_task_id(pre.tasks@, child_id),
        post.rela_task_task_group@ == insert_pair(pre.rela_task_task_group@, parent_id, child_id),
        post.tasks@ == pre.tasks@,
        post.subtasks@ == pre.subtasks@,
        post.rela_task_subtask@ == pre.rela_task_subtask@,
        post.task_groups@ == pre.task_groups@,
    ensures
        post.wf(),
{
    lemma_insert_pair(pre.rela_task_task_group@, parent_id, child_id);
    let r0 = pre.rela_task_task_group@;
    assert forall|i: int| 0 <= i < post.rela_task_task_group@.len() implies has_group_id(
        post.task_groups@,
        (#[trigger] post.rela_task_task_group@[i]).parent_id,
    ) && has_task_id(post.tasks@, post.rela_task_task_group@[i].child_id) by {
        if i < r0.len() {
            assert(post.rela_task_task_group@[i] == r0[i]);
        } else {
            assert(post.rela_task_task_group@[i] == (Relation { parent_id, child_id }));
        }
    }
}

/// Removing a task-subtask pair preserves well-formedness.
pub proof fn lemma_wf_after_ts_pair_remove(
    pre: Storage,
    post: Storage,
    parent_id: u128,
    child_id: u128,
)
    requires
        pre.wf(),
        post.rela_task_subtask@ == remove_pair(pre.rela_task_subtask@, parent_id, child_id),
        post.tasks@ == pre.tasks@,
        post.subtasks@ == pre.subtasks@,
        post.task_groups@ == pre.task_groups@,
        post.rela_task_task_group@ == pre.rela_task_task_group@,
    ensures
        post.wf(),
{
    lemma_remove_pair(pre.rela_task_subtask@, parent_id, child_id);
    let r0 = pre.rela_task_subtask@;
    if has_pair(r0, parent_id, child_id) {
        let k = pair_index_of(r0, parent_id, child_id);
        assert forall|i: int| 0 <= i < post.rela_task_subtask@.len() implies has_task_id(
            post.tasks@,
            (#[trigger] post.rela_task_subtask@[i]).parent_id,
        ) && has_subtask_id(post.subtasks@, post.rela_task_subtask@[i].child_id) by {
            assert(post.rela_task_subtask@[i] == (if i < k {
                r0[i]
            } else {
                r0[i + 1]
            }));
        }
    }
}

/// Removing a group-task pair preserves well-formedness.
pub proof fn lemma_wf_after_tg_pair_remove(
    pre: Storage,
    post: Storage,
    parent_id: u128,
    child_id: u128,
)
    requires
        pre.wf(),
        post.rela_task_task_group@ == remove_pair(pre.rela_task_task_group@, parent_id, child_id),
        post.tasks@ == pre.tasks@,
        post.subtasks@ == pre.subtasks@,
        post.rela_task_subtask@ == pre.rela_task_subtask@,
        post.task_groups@ == pre.task_groups@,
    ensures
        post.wf(),
{
    lemma_remove_pair(pre.rela_task_task_group@, parent_id, child_id);
    let r0 = pre.rela_task_task_group@;
    if has_pair(r0, parent_id, child_id) {
        let k = pair_index_of(r0, parent_id, child_id);
        assert forall|i: int| 0 <= i < post.rela_task_task_group@.len() implies has_group_id(
            post.task_groups@,
            (#[trigger] post.rela_task_task_group@[i]).parent_id,
        ) && has_task_id(post.tasks@, post.rela_task_task_group@[i].child_id) by {
            assert(post.rela_task_task_group@[i] == (if i < k {
                r0[i]
            } else {
                r0[i + 1]
            }));
        }
    }
}

} // verus!
