//! The textual part of a task, built step by step.

use vstd::prelude::*;

verus! {

/// A task's description and optional details, as a small builder: each step
/// consumes the value and returns the updated one.
pub struct TaskElement {
    pub description: String,
    pub details: Option<String>,
}

impl TaskElement {
    /// The starting element: the placeholder description and no details.
    pub fn default() -> (r: TaskElement)
        ensures
            r.description@ == "No description."@,
            r.details is None,
    {
        TaskElement { description: "No description.".to_owned(), details: None }
    }

    /// The element with its description replaced.
    pub fn update_description(self, description: String) -> (r: TaskElement)
        ensures
            r.description == description,
            r.details == self.details,
    {
        TaskElement { description, details: self.details }
    }

    /// The element with its details set.
    pub fn update_details(self, details: String) -> (r: TaskElement)
        ensures
            r.description == self.description,
            r.details == Some(details),
    {
        TaskElement { description: self.description, details: Some(details) }
    }
}

} // verus!
