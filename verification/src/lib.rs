//! Persistence core for a hierarchical task planner.
//!
//! Tasks are grouped into task groups and composed of ordered subtasks.
//! The store keeps one row per task, subtask and group, plus two pure
//! association tables, and maintains soft-delete, ordering and timestamp
//! invariants across save/load cycles.

use vstd::prelude::*;

pub mod clock;
pub mod codec;
pub mod commands;
pub mod ids;
pub mod laws;
pub mod peers;
pub mod subtask;
pub mod subtask_store;
pub mod task;
pub mod task_store;
pub mod group_store;
pub mod storage;
pub mod task_element;
pub mod task_group;
pub mod task_subtask;
pub mod task_task_group;

verus! {

/// The error taxonomy of the store.
///
/// `ValidationGap` marks data that the store accepts by design but flags
/// (unbounded progress, start after end); no core operation returns it.
#[derive(Clone, Copy, Debug, PartialEq, Eq, Structural)]
pub enum StoreError {
    /// An expected row is absent.
    NotFound,
    /// A required field is malformed or missing, or an id or timestamp
    /// could not be parsed on read-back.
    ConstraintViolation,
    /// The backing store cannot be reached (only the persistence layer
    /// outside this crate ever reports this).
    StorageUnavailable,
    /// Accepted but flagged data; see `has_validation_gap`.
    ValidationGap,
}

} // verus!
