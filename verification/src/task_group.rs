//! Task groups: named collections of tasks.

use vstd::prelude::*;

use crate::clock::{current_instant, encodable_instant, refreshed_updated_at};
use crate::ids::fresh_id;

verus! {

/// A task group: a name, the usual creation/update/delete instants, and the
/// ids of the tasks attached to it. Membership is persisted through relation
/// rows and carries no order.
#[derive(Debug, PartialEq)]
pub struct TaskGroup {
    pub id: u128,
    pub name: String,
    pub tasks: Vec<u128>,
    pub created_at: i64,
    pub updated_at: Option<i64>,
    pub deleted_at: Option<i64>,
}

impl TaskGroup {
    /// The group as it stands after a save at instant `now`.
    pub open spec fn refreshed(self, now: i64) -> TaskGroup {
        TaskGroup { updated_at: Some(refreshed_updated_at(self.created_at, now)), ..self }
    }

    /// The group with its delete instant set at `now`. Once set, the delete
    /// instant is permanent: marking again changes nothing.
    pub open spec fn marked_deleted(self, now: i64) -> TaskGroup {
        if self.deleted_at is Some {
            self
        } else {
            TaskGroup { deleted_at: Some(now), ..self }
        }
    }


    /// A fresh group: a new id, an empty name, an empty member set, created
    /// now, never updated, never deleted.
    pub fn new() -> (r: TaskGroup)
        ensures
            r.id != 0,
            r.name@ == Seq::<char>::empty(),
            r.tasks@ == Seq::<u128>::empty(),
            encodable_instant(r.created_at),
            r.updated_at is None,
            r.deleted_at is None,
    {
        TaskGroup {
            id: fresh_id(),
            name: String::new(),
            tasks: Vec::new(),
            created_at: current_instant(),
            updated_at: None,
            deleted_at: None,
        }
    }

    /// A fresh group carrying the given name.
    pub fn create(name: String) -> (r: TaskGroup)
        ensures
            r.id != 0,
            r.name == name,
            r.tasks@ == Seq::<u128>::empty(),
            encodable_instant(r.created_at),
            r.updated_at is None,
            r.deleted_at is None,
    {
        let mut g = TaskGroup::new();
        g.name = name;
        g
    }

    /// Attaches a task id to the in-memory group; membership is persisted by
    /// the next save.
    pub fn add_task(&mut self, task_id: u128)
        ensures
            final(self).tasks@ == old(self).tasks@.push(task_id),
            *final(self) == (TaskGroup { tasks: final(self).tasks, ..*old(self) }),
    {
        self.tasks.push(task_id);
    }

    /// Detaches every occurrence of the given task id.
    pub fn remove_task(&mut self, task_id: u128)
        ensures
            final(self).tasks@ == old(self).tasks@.filter(|t: u128| t != task_id),
            *final(self) == (TaskGroup { tasks: final(self).tasks, ..*old(self) }),
    {
        let ghost all = self.tasks@;
        let mut kept: Vec<u128> = Vec::new();
        let mut i: usize = 0;
        while i < self.tasks.len()
            invariant
                i <= all.len(),
                self.tasks@ == all,
                kept@ == all.take(i as int).filter(|t: u128| t != task_id),
            decreases all.len() - i,
        {
            let t = self.tasks[i];
            proof {
                reveal(Seq::filter);
                assert(all.take(i + 1 as int).drop_last() == all.take(i as int));
                assert(all.take(i + 1 as int).last() == all[i as int]);
            }
            if t != task_id {
                kept.push(t);
            }
            i = i + 1;
        }
        proof {
            assert(all.take(all.len() as int) == all);
        }
        self.tasks = kept;
    }

    /// Resets the creation instant to the present; nothing else changes.
    pub fn set_created_at(&mut self)
        ensures
            encodable_instant(final(self).created_at),
            *final(self) == (TaskGroup { created_at: final(self).created_at, ..*old(self) }),
    {
        self.created_at = current_instant();
    }

    /// Refreshes the update instant as a save at instant `now` would.
    pub fn refresh_updated_at(&mut self, now: i64)
        ensures
            *final(self) == old(self).refreshed(now),
    {
        let u: i64 = if now >= self.created_at {
            now
        } else {
            self.created_at
        };
        self.updated_at = Some(u);
    }

    /// Refreshes the update instant from the wall clock.
    pub fn update_updated_at(&mut self)
        ensures
            exists|now: i64|
                encodable_instant(now) && *final(self) == #[trigger] old(self).refreshed(now),
    {
        let now = current_instant();
        self.refresh_updated_at(now);
    }

    /// Sets the delete instant from the wall clock; once set it is permanent.
    pub fn set_deleted(&mut self)
        ensures
            exists|now: i64|
                encodable_instant(now) && *final(self) == #[trigger] old(self).marked_deleted(now),
            final(self).deleted_at is Some,
    {
        let now = current_instant();
        self.mark_deleted(now);
    }

    /// Sets the delete instant at `now`; once set it is permanent.
    pub fn mark_deleted(&mut self, now: i64)
        ensures
            *final(self) == old(self).marked_deleted(now),
            final(self).deleted_at is Some,
    {
        if self.deleted_at.is_none() {
            self.deleted_at = Some(now);
        }
    }
}

} // verus!
