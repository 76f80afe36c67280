//! Tasks: the central aggregate of the planner.

use vstd::prelude::*;

use crate::clock::{current_instant, encodable_instant, refreshed_updated_at};
use crate::ids::fresh_id;
use crate::subtask::Subtask;

verus! {

/// A task: a description with optional details, a completion flag, an
/// optional schedule (start and end instants plus an integer progress for a
/// timeline view), the usual creation/update/delete instants, and its
/// in-memory attached subtasks. Subtasks are persisted through relation
/// rows, not embedded in the task row.
#[derive(Debug, PartialEq)]
pub struct Task {
    pub id: u128,
    pub completed: bool,
    pub description: String,
    pub details: Option<String>,
    pub subtasks: Vec<Subtask>,
    pub start_datetime: Option<i64>,
    pub end_datetime: Option<i64>,
    pub progress: u32,
    pub created_at: i64,
    pub updated_at: Option<i64>,
    pub deleted_at: Option<i64>,
}

impl Task {
    /// The task as it stands after a save at instant `now`: its own update
    /// instant and each attached subtask's update instant are refreshed.
    pub open spec fn refreshed(self, now: i64) -> Task {
        Task { updated_at: Some(refreshed_updated_at(self.created_at, now)), ..self }
    }

    /// The attached subtasks as they stand after a save at instant `now`.
    pub open spec fn refreshed_subtasks(self, now: i64) -> Seq<Subtask> {
        self.subtasks@.map_values(|s: Subtask| s.refreshed(now))
    }

    /// The task with its delete instant set at `now`. Once set, the delete
    /// instant is permanent: marking again changes nothing.
    pub open spec fn marked_deleted(self, now: i64) -> Task {
        if self.deleted_at is Some {
            self
        } else {
            Task { deleted_at: Some(now), ..self }
        }
    }


    /// A fresh task: a new id, the placeholder description, no details, no
    /// schedule, progress 0, not completed, created now, never updated,
    /// never deleted, no subtasks attached.
    pub fn new() -> (r: Task)
        ensures
            r.id != 0,
            !r.completed,
            r.description@ == "No description."@,
            r.details is None,
            r.subtasks@ == Seq::<Subtask>::empty(),
            r.start_datetime is None,
            r.end_datetime is None,
            r.progress == 0,
            encodable_instant(r.created_at),
            r.updated_at is None,
            r.deleted_at is None,
    {
        Task {
            id: fresh_id(),
            completed: false,
            description: "No description.".to_owned(),
            details: None,
            subtasks: Vec::new(),
            start_datetime: None,
            end_datetime: None,
            progress: 0,
            created_at: current_instant(),
            updated_at: None,
            deleted_at: None,
        }
    }

    /// Attaches a subtask to the in-memory task; it is persisted, together
    /// with its relation row, by the next save.
    pub fn add_subtask(&mut self, subtask: Subtask)
        ensures
            final(self).subtasks@ == old(self).subtasks@.push(subtask),
            *final(self) == (Task { subtasks: final(self).subtasks, ..*old(self) }),
    {
        self.subtasks.push(subtask);
    }

    /// Detaches every attached subtask with the given id.
    pub fn remove_subtask(&mut self, subtask_id: u128)
        ensures
            final(self).subtasks@ == old(self).subtasks@.filter(|s: Subtask| s.id != subtask_id),
            *final(self) == (Task { subtasks: final(self).subtasks, ..*old(self) }),
    {
        let ghost all = self.subtasks@;
        let mut kept: Vec<Subtask> = Vec::new();
        let mut i: usize = 0;
        while i < self.subtasks.len()
            invariant
                i <= all.len(),
                self.subtasks@ == all,
                kept@ == all.take(i as int).filter(|s: Subtask| s.id != subtask_id),
            decreases all.len() - i,
        {
            let s = &self.subtasks[i];
            proof {
                reveal(Seq::filter);
                assert(all.take(i + 1 as int).drop_last() == all.take(i as int));
                assert(all.take(i + 1 as int).last() == all[i as int]);
            }
            if s.id != subtask_id {
                kept.push(s.duplicate());
            }
            i = i + 1;
        }
        proof {
            assert(all.take(all.len() as int) == all);
        }
        self.subtasks = kept;
    }

    /// Resets the creation instant to the present; nothing else changes.
    pub fn set_created_at(&mut self)
        ensures
            encodable_instant(final(self).created_at),
            *final(self) == (Task { created_at: final(self).created_at, ..*old(self) }),
    {
        self.created_at = current_instant();
    }

    /// Refreshes the update instant as a save at instant `now` would.
    pub fn refresh_updated_at(&mut self, now: i64)
        ensures
            *final(self) == old(self).refreshed(now),
    {
        let u: i64 = if now >= self.created_at {
            now
        } else {
            self.created_at
        };
        self.updated_at = Some(u);
    }

    /// Refreshes the update instant from the wall clock.
    pub fn update_updated_at(&mut self)
        ensures
            exists|now: i64|
                encodable_instant(now) && *final(self) == #[trigger] old(self).refreshed(now),
    {
        let now = current_instant();
        self.refresh_updated_at(now);
    }

    /// Sets the delete instant from the wall clock; once set it is permanent.
    pub fn set_deleted(&mut self)
        ensures
            exists|now: i64|
                encodable_instant(now) && *final(self) == #[trigger] old(self).marked_deleted(now),
            final(self).deleted_at is Some,
    {
        let now = current_instant();
        self.mark_deleted(now);
    }

    /// Sets the delete instant at `now`; once set it is permanent.
    pub fn mark_deleted(&mut self, now: i64)
        ensures
            *final(self) == old(self).marked_deleted(now),
            final(self).deleted_at is Some,
    {
        if self.deleted_at.is_none() {
            self.deleted_at = Some(now);
        }
    }
}

/// Whether the task carries data that the store accepts but flags: a
/// progress beyond 100, or a schedule whose start lies after its end.
pub open spec fn spec_has_validation_gap(t: Task) -> bool {
    t.progress > 100 || match (t.start_datetime, t.end_datetime) {
        (Some(s), Some(e)) => s > e,
        _ => false,
    }
}

/// Flags the validation gaps that the store accepts by design: the schedule
/// fields carry no cross-field invariant, so callers may ask whether a task
/// holds an unbounded progress or a start instant after its end instant.
pub fn has_validation_gap(t: &Task) -> (r: bool)
    ensures
        r == spec_has_validation_gap(*t),
{
    if t.progress > 100 {
        return true;
    }
    match (t.start_datetime, t.end_datetime) {
        (Some(s), Some(e)) => s > e,
        _ => false,
    }
}

} // verus!
