//! The requests that create and change a todo, as both the local store and
//! the synchronisation service take them.

use crate::priority::Priority;
use crate::time::Timestamp;
use vstd::prelude::*;

verus! {

/// Request to create a new todo.
#[derive(Debug)]
pub struct CreateTodoRequest {
    pub title: String,
    pub description: Option<String>,
    pub priority: Option<Priority>,
    pub due_date: Option<Timestamp>,
}

/// Request to update a todo: a field that is absent leaves the record's
/// value as it is.
#[derive(Debug)]
pub struct UpdateTodoRequest {
    pub title: Option<String>,
    pub description: Option<String>,
    pub completed: Option<bool>,
    pub priority: Option<Priority>,
    pub due_date: Option<Timestamp>,
}

impl CreateTodoRequest {
    /// The priority of the todo that the request asks for: the one it
    /// gives, or medium.
    pub open spec fn priority_or_default(self) -> Priority {
        match self.priority {
            Some(priority) => priority,
            None => Priority::Medium,
        }
    }
}

impl UpdateTodoRequest {
    /// The request names no field.
    pub open spec fn is_empty(self) -> bool {
        &&& self.title is None
        &&& self.description is None
        &&& self.completed is None
        &&& self.priority is None
        &&& self.due_date is None
    }

    /// A title that the request gives is not empty.
    pub open spec fn keeps_title(self) -> bool {
        self.title matches Some(title) ==> title@.len() > 0
    }

    /// A request that names no field.
    pub fn empty() -> (request: UpdateTodoRequest)
        ensures
            request.is_empty(),
    {
        UpdateTodoRequest {
            title: None,
            description: None,
            completed: None,
            priority: None,
            due_date: None,
        }
    }
}

} // verus!
