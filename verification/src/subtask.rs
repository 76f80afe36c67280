//! Subtasks: the ordered children of a task.

use vstd::prelude::*;

use crate::clock::{current_instant, encodable_instant, refreshed_updated_at};
use crate::ids::fresh_id;

verus! {

/// A subtask row: an explicit order index, a description, a completion flag
/// and the usual creation/update/delete instants.
#[derive(Debug, PartialEq)]
pub struct Subtask {
    pub id: u128,
    pub order: i32,
    pub description: String,
    pub completed: bool,
    pub created_at: i64,
    pub updated_at: Option<i64>,
    pub deleted_at: Option<i64>,
}

impl Subtask {
    /// The subtask as it stands after a save at instant `now`: the update
    /// instant is refreshed, everything else is kept.
    pub open spec fn refreshed(self, now: i64) -> Subtask {
        Subtask { updated_at: Some(refreshed_updated_at(self.created_at, now)), ..self }
    }

    /// The subtask with its delete instant set at `now`. Once set, the
    /// delete instant is permanent: marking again changes nothing.
    pub open spec fn marked_deleted(self, now: i64) -> Subtask {
        if self.deleted_at is Some {
            self
        } else {
            Subtask { deleted_at: Some(now), ..self }
        }
    }


    /// A fresh subtask: a new id, order 0, an empty description, not
    /// completed, created now, never updated, never deleted.
    pub fn new() -> (r: Subtask)
        ensures
            r.id != 0,
            r.order == 0,
            r.description@ == Seq::<char>::empty(),
            !r.completed,
            encodable_instant(r.created_at),
            r.updated_at is None,
            r.deleted_at is None,
    {
        Subtask {
            id: fresh_id(),
            order: 0,
            description: String::new(),
            completed: false,
            created_at: current_instant(),
            updated_at: None,
            deleted_at: None,
        }
    }

    /// A fresh subtask carrying the given description.
    pub fn create(description: String) -> (r: Subtask)
        ensures
            r.id != 0,
            r.order == 0,
            r.description == description,
            !r.completed,
            encodable_instant(r.created_at),
            r.updated_at is None,
            r.deleted_at is None,
    {
        let mut s = Subtask::new();
        s.description = description;
        s
    }

    /// An equal copy of the subtask.
    pub fn duplicate(&self) -> (r: Subtask)
        ensures
            r == *self,
    {
        Subtask {
            id: self.id,
            order: self.order,
            description: self.description.clone(),
            completed: self.completed,
            created_at: self.created_at,
            updated_at: self.updated_at,
            deleted_at: self.deleted_at,
        }
    }

    /// Resets the creation instant to the present; nothing else changes.
    pub fn set_created_at(&mut self)
        ensures
            encodable_instant(final(self).created_at),
            *final(self) == (Subtask { created_at: final(self).created_at, ..*old(self) }),
    {
        self.created_at = current_instant();
    }

    /// Refreshes the update instant as a save at instant `now` would.
    pub fn refresh_updated_at(&mut self, now: i64)
        ensures
            *final(self) == old(self).refreshed(now),
    {
        let u: i64 = if now >= self.created_at {
            now
        } else {
            self.created_at
        };
        self.updated_at = Some(u);
    }

    /// Refreshes the update instant from the wall clock.
    pub fn update_updated_at(&mut self)
        ensures
            exists|now: i64|
                encodable_instant(now) && *final(self) == #[trigger] old(self).refreshed(now),
    {
        let now = current_instant();
        self.refresh_updated_at(now);
    }

    /// Sets the delete instant from the wall clock; once set it is permanent.
    pub fn set_deleted(&mut self)
        ensures
            exists|now: i64|
                encodable_instant(now) && *final(self) == #[trigger] old(self).marked_deleted(now),
            final(self).deleted_at is Some,
    {
        let now = current_instant();
        self.mark_deleted(now);
    }

    /// Sets the delete instant at `now`; once set it is permanent.
    pub fn mark_deleted(&mut self, now: i64)
        ensures
            *final(self) == old(self).marked_deleted(now),
            final(self).deleted_at is Some,
    {
        if self.deleted_at.is_none() {
            self.deleted_at = Some(now);
        }
    }
}

} // verus!
