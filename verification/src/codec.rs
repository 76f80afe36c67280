//! The persisted text forms of the rows.
//!
//! Ids and instants are stored as text: ids in the hyphenated UUID form,
//! instants as timezone-aware, sortable RFC 3339 text. Encoding a row and
//! decoding it back yields the row unchanged; text that does not parse back
//! into an id or an instant is a `ConstraintViolation`.

use vstd::prelude::*;

use crate::clock::{encodable_instant, instant_text, parse_instant, rfc3339_text_of};
use crate::ids::{id_text, parse_id, uuid_text_of};
use crate::storage::{GroupRow, Relation, TaskRow};
use crate::subtask::Subtask;
use crate::StoreError;

verus! {

/// A task row as persisted.
pub struct TaskRowText {
    pub id: String,
    pub completed: bool,
    pub description: String,
    pub details: Option<String>,
    pub start_datetime: Option<String>,
    pub end_datetime: Option<String>,
    pub progress: u32,
    pub created_at: String,
    pub updated_at: Option<String>,
    pub deleted_at: Option<String>,
}

/// A subtask row as persisted.
pub struct SubtaskRowText {
    pub id: String,
    pub order: i32,
    pub description: String,
    pub completed: bool,
    pub created_at: String,
    pub updated_at: Option<String>,
    pub deleted_at: Option<String>,
}

/// A group row as persisted.
pub struct GroupRowText {
    pub id: String,
    pub name: String,
    pub created_at: String,
    pub updated_at: Option<String>,
    pub deleted_at: Option<String>,
}

/// A relation row as persisted.
pub struct RelationText {
    pub parent_id: String,
    pub child_id: String,
}

/// Whether an optional instant can be rendered as calendar text.
pub open spec fn opt_encodable(m: Option<i64>) -> bool {
    match m {
        Some(v) => encodable_instant(v),
        None => true,
    }
}

/// Whether `t` is the canonical text of the optional instant `m`.
pub open spec fn opt_instant_text(m: Option<i64>, t: Option<String>) -> bool {
    match (m, t) {
        (None, None) => true,
        (Some(v), Some(s)) => encodable_instant(v) && s@ == rfc3339_text_of(v),
        _ => false,
    }
}

/// Whether every instant of the row can be rendered as calendar text. The
/// store clamps the clock into this range, so rows it writes always can.
pub open spec fn encodable_task_row(row: TaskRow) -> bool {
    &&& encodable_instant(row.created_at)
    &&& opt_encodable(row.start_datetime)
    &&& opt_encodable(row.end_datetime)
    &&& opt_encodable(row.updated_at)
    &&& opt_encodable(row.deleted_at)
}

pub open spec fn encodable_subtask(row: Subtask) -> bool {
    &&& encodable_instant(row.created_at)
    &&& opt_encodable(row.updated_at)
    &&& opt_encodable(row.deleted_at)
}

pub open spec fn encodable_group_row(row: GroupRow) -> bool {
    &&& encodable_instant(row.created_at)
    &&& opt_encodable(row.updated_at)
    &&& opt_encodable(row.deleted_at)
}

/// Whether `t` is the canonical text form of the task row.
pub open spec fn canonical_task_text(t: TaskRowText, row: TaskRow) -> bool {
    &&& t.id@ == uuid_text_of(row.id)
    &&& t.completed == row.completed
    &&& t.description == row.description
    &&& t.details == row.details
    &&& opt_instant_text(row.start_datetime, t.start_datetime)
    &&& opt_instant_text(row.end_datetime, t.end_datetime)
    &&& t.progress == row.progress
    &&& encodable_instant(row.created_at)
    &&& t.created_at@ == rfc3339_text_of(row.created_at)
    &&& opt_instant_text(row.updated_at, t.updated_at)
    &&& opt_instant_text(row.deleted_at, t.deleted_at)
}

/// Whether `t` is the canonical text form of the subtask row.
pub open spec fn canonical_subtask_text(t: SubtaskRowText, row: Subtask) -> bool {
    &&& t.id@ == uuid_text_of(row.id)
    &&& t.order == row.order
    &&& t.description == row.description
    &&& t.completed == row.completed
    &&& encodable_instant(row.created_at)
    &&& t.created_at@ == rfc3339_text_of(row.created_at)
    &&& opt_instant_text(row.updated_at, t.updated_at)
    &&& opt_instant_text(row.deleted_at, t.deleted_at)
}

/// Whether `t` is the canonical text form of the group row.
pub open spec fn canonical_group_text(t: GroupRowText, row: GroupRow) -> bool {
    &&& t.id@ == uuid_text_of(row.id)
    &&& t.name == row.name
    &&& encodable_instant(row.created_at)
    &&& t.created_at@ == rfc3339_text_of(row.created_at)
    &&& opt_instant_text(row.updated_at, t.updated_at)
    &&& opt_instant_text(row.deleted_at, t.deleted_at)
}

/// Whether `t` is the canonical text form of the relation row.
pub open spec fn canonical_relation_text(t: RelationText, rel: Relation) -> bool {
    &&& t.parent_id@ == uuid_text_of(rel.parent_id)
    &&& t.child_id@ == uuid_text_of(rel.child_id)
}

fn encode_opt_instant(m: &Option<i64>) -> (r: Option<String>)
    requires
        opt_encodable(*m),
    ensures
        opt_instant_text(*m, r),
{
    match m {
        Some(v) => Some(instant_text(*v)),
        None => None,
    }
}

fn decode_opt_instant(t: &Option<String>) -> (r: Option<Option<i64>>)
    ensures
        forall|m: Option<i64>| #[trigger] opt_instant_text(m, *t) ==> r == Some(m),
{
    match t {
        None => Some(None),
        Some(s) => match parse_instant(s.as_str()) {
            Some(v) => Some(Some(v)),
            None => None,
        },
    }
}

fn clone_opt_string(s: &Option<String>) -> (r: Option<String>)
    ensures
        r == *s,
{
    match s {
        Some(x) => Some(x.clone()),
        None => None,
    }
}

/// Renders a task row in its persisted text form.
pub fn encode_task_row(row: &TaskRow) -> (r: TaskRowText)
    requires
        encodable_task_row(*row),
    ensures
        canonical_task_text(r, *row),
{
    TaskRowText {
        id: id_text(row.id),
        completed: row.completed,
        description: row.description.clone(),
        details: clone_opt_string(&row.details),
        start_datetime: encode_opt_instant(&row.start_datetime),
        end_datetime: encode_opt_instant(&row.end_datetime),
        progress: row.progress,
        created_at: instant_text(row.created_at),
        updated_at: encode_opt_instant(&row.updated_at),
        deleted_at: encode_opt_instant(&row.deleted_at),
    }
}

/// Reads a task row back from its persisted text form. The canonical text of
/// a row decodes to exactly that row; an id or instant that does not parse
/// is a `ConstraintViolation`.
pub fn decode_task_row(t: &TaskRowText) -> (r: Result<TaskRow, StoreError>)
    ensures
        forall|row: TaskRow|
            #[trigger] canonical_task_text(*t, row) ==> r == Ok::<TaskRow, StoreError>(row),
        r is Err ==> r == Err::<TaskRow, StoreError>(StoreError::ConstraintViolation),
{
    let id = match parse_id(t.id.as_str()) {
        Some(v) => v,
        None => {
            return Err(StoreError::ConstraintViolation);
        },
    };
    let created_at = match parse_instant(t.created_at.as_str()) {
        Some(v) => v,
        None => {
            return Err(StoreError::ConstraintViolation);
        },
    };
    let start_datetime = match decode_opt_instant(&t.start_datetime) {
        Some(v) => v,
        None => {
            return Err(StoreError::ConstraintViolation);
        },
    };
    let end_datetime = match decode_opt_instant(&t.end_datetime) {
        Some(v) => v,
        None => {
            return Err(StoreError::ConstraintViolation);
        },
    };
    let updated_at = match decode_opt_instant(&t.updated_at) {
        Some(v) => v,
        None => {
            return Err(StoreError::ConstraintViolation);
        },
    };
    let deleted_at = match decode_opt_instant(&t.deleted_at) {
        Some(v) => v,
        None => {
            return Err(StoreError::ConstraintViolation);
        },
    };
    Ok(TaskRow {
        id,
        completed: t.completed,
        description: t.description.clone(),
        details: clone_opt_string(&t.details),
        start_datetime,
        end_datetime,
        progress: t.progress,
        created_at,
        updated_at,
        deleted_at,
    })
}

/// Renders a subtask row in its persisted text form.
pub fn encode_subtask_row(row: &Subtask) -> (r: SubtaskRowText)
    requires
        encodable_subtask(*row),
    ensures
        canonical_subtask_text(r, *row),
{
    SubtaskRowText {
        id: id_text(row.id),
        order: row.order,
        description: row.description.clone(),
        completed: row.completed,
        created_at: instant_text(row.created_at),
        updated_at: encode_opt_instant(&row.updated_at),
        deleted_at: encode_opt_instant(&row.deleted_at),
    }
}

/// Reads a subtask row back from its persisted text form.
pub fn decode_subtask_row(t: &SubtaskRowText) -> (r: Result<Subtask, StoreError>)
    ensures
        forall|row: Subtask|
            #[trigger] canonical_subtask_text(*t, row) ==> r == Ok::<Subtask, StoreError>(row),
        r is Err ==> r == Err::<Subtask, StoreError>(StoreError::ConstraintViolation),
{
    let id = match parse_id(t.id.as_str()) {
        Some(v) => v,
        None => {
            return Err(StoreError::ConstraintViolation);
        },
    };
    let created_at = match parse_instant(t.created_at.as_str()) {
        Some(v) => v,
        None => {
            return Err(StoreError::ConstraintViolation);
        },
    };
    let updated_at = match decode_opt_instant(&t.updated_at) {
        Some(v) => v,
        None => {
            return Err(StoreError::ConstraintViolation);
        },
    };
    let deleted_at = match decode_opt_instant(&t.deleted_at) {
        Some(v) => v,
        None => {
            return Err(StoreError::ConstraintViolation);
        },
    };
    Ok(Subtask {
        id,
        order: t.order,
        description: t.description.clone(),
        completed: t.completed,
        created_at,
        updated_at,
        deleted_at,
    })
}

/// Renders a group row in its persisted text form.
pub fn encode_group_row(row: &GroupRow) -> (r: GroupRowText)
    requires
        encodable_group_row(*row),
    ensures
        canonical_group_text(r, *row),
{
    GroupRowText {
        id: id_text(row.id),
        name: row.name.clone(),
        created_at: instant_text(row.created_at),
        updated_at: encode_opt_instant(&row.updated_at),
        deleted_at: encode_opt_instant(&row.deleted_at),
    }
}

/// Reads a group row back from its persisted text form.
pub fn decode_group_row(t: &GroupRowText) -> (r: Result<GroupRow, StoreError>)
    ensures
        forall|row: GroupRow|
            #[trigger] canonical_group_text(*t, row) ==> r == Ok::<GroupRow, StoreError>(row),
        r is Err ==> r == Err::<GroupRow, StoreError>(StoreError::ConstraintViolation),
{
    let id = match parse_id(t.id.as_str()) {
        Some(v) => v,
        None => {
            return Err(StoreError::ConstraintViolation);
        },
    };
    let created_at = match parse_instant(t.created_at.as_str()) {
        Some(v) => v,
        None => {
            return Err(StoreError::ConstraintViolation);
        },
    };
    let updated_at = match decode_opt_instant(&t.updated_at) {
        Some(v) => v,
        None => {
            return Err(StoreError::ConstraintViolation);
        },
    };
    let deleted_at = match decode_opt_instant(&t.deleted_at) {
        Some(v) => v,
        None => {
            return Err(StoreError::ConstraintViolation);
        },
    };
    Ok(GroupRow { id, name: t.name.clone(), created_at, updated_at, deleted_at })
}

/// Renders a relation row in its persisted text form.
pub fn encode_relation(rel: &Relation) -> (r: RelationText)
    ensures
        canonical_relation_text(r, *rel),
{
    RelationText { parent_id: id_text(rel.parent_id), child_id: id_text(rel.child_id) }
}

/// Reads a relation row back from its persisted text form.
pub fn decode_relation(t: &RelationText) -> (r: Result<Relation, StoreError>)
    ensures
        forall|rel: Relation|
            #[trigger] canonical_relation_text(*t, rel) ==> r == Ok::<Relation, StoreError>(rel),
        r is Err ==> r == Err::<Relation, StoreError>(StoreError::ConstraintViolation),
{
    let parent_id = match parse_id(t.parent_id.as_str()) {
        Some(v) => v,
        None => {
            return Err(StoreError::ConstraintViolation);
        },
    };
    let child_id = match parse_id(t.child_id.as_str()) {
        Some(v) => v,
        None => {
            return Err(StoreError::ConstraintViolation);
        },
    };
    Ok(Relation { parent_id, child_id })
}

} // verus!
