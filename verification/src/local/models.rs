//! The record of the local store and the requests that change it.

use crate::host::{clock_now, fresh_id};
pub use crate::priority::Priority;
pub use crate::request::{CreateTodoRequest, UpdateTodoRequest};
use crate::text::{copy_opt_text, opt_text};
use crate::time::Timestamp;
use vstd::prelude::*;

verus! {

/// A todo item.
#[derive(Debug, PartialEq, Eq)]
pub struct Todo {
    pub id: String,
    pub title: String,
    pub description: Option<String>,
    pub completed: bool,
    pub priority: Priority,
    pub created_at: Timestamp,
    pub updated_at: Timestamp,
    pub due_date: Option<Timestamp>,
}

/// What a todo item holds, with its texts as sequences of characters.
pub struct TodoView {
    pub id: Seq<char>,
    pub title: Seq<char>,
    pub description: Option<Seq<char>>,
    pub completed: bool,
    pub priority: Priority,
    pub created_at: Timestamp,
    pub updated_at: Timestamp,
    pub due_date: Option<Timestamp>,
}

impl View for Todo {
    type V = TodoView;

    open spec fn view(&self) -> TodoView {
        TodoView {
            id: self.id@,
            title: self.title@,
            description: opt_text(self.description),
            completed: self.completed,
            priority: self.priority,
            created_at: self.created_at,
            updated_at: self.updated_at,
            due_date: self.due_date,
        }
    }
}

/// Sync status for the app.
#[derive(Clone, Copy, Debug, PartialEq, Eq, Structural)]
pub struct SyncStatus {
    pub connected: bool,
    pub last_sync: Option<Timestamp>,
    pub pending_changes: usize,
}

impl TodoView {
    /// The title is not empty and the record was not updated before it was
    /// created.
    pub open spec fn valid(self) -> bool {
        &&& self.title.len() > 0
        &&& self.updated_at.not_before(self.created_at)
    }

    /// The record that a creation at `now` under `id` yields.
    pub open spec fn created(
        id: Seq<char>,
        now: Timestamp,
        title: Seq<char>,
        description: Option<Seq<char>>,
        priority: Priority,
        due_date: Option<Timestamp>,
    ) -> TodoView {
        TodoView {
            id,
            title,
            description,
            completed: false,
            priority,
            created_at: now,
            updated_at: now,
            due_date,
        }
    }

    /// The record that `request` asks for, under `id` at `now`.
    pub open spec fn requested(
        id: Seq<char>,
        now: Timestamp,
        request: CreateTodoRequest,
    ) -> TodoView {
        TodoView::created(
            id,
            now,
            request.title@,
            opt_text(request.description),
            request.priority_or_default(),
            request.due_date,
        )
    }

    /// This record after `request` was applied at `now`: the fields that the
    /// request gives are replaced, the others kept.
    pub open spec fn patched(self, request: UpdateTodoRequest, now: Timestamp) -> TodoView {
        TodoView {
            id: self.id,
            title: match request.title {
                Some(title) => title@,
                None => self.title,
            },
            description: match request.description {
                Some(description) => Some(description@),
                None => self.description,
            },
            completed: match request.completed {
                Some(completed) => completed,
                None => self.completed,
            },
            priority: match request.priority {
                Some(priority) => priority,
                None => self.priority,
            },
            created_at: self.created_at,
            updated_at: now,
            due_date: match request.due_date {
                Some(due_date) => Some(due_date),
                None => self.due_date,
            },
        }
    }

    /// This record after its completion was flipped at `now`.
    pub open spec fn toggled(self, now: Timestamp) -> TodoView {
        TodoView { completed: !self.completed, updated_at: now, ..self }
    }
}

impl Clone for Todo {
    fn clone(&self) -> (copy: Todo)
        ensures
            copy == *self,
    {
        Todo {
            id: self.id.clone(),
            title: self.title.clone(),
            description: copy_opt_text(&self.description),
            completed: self.completed,
            priority: self.priority,
            created_at: self.created_at,
            updated_at: self.updated_at,
            due_date: self.due_date,
        }
    }
}

impl Todo {
    /// A new todo under a random identifier, created at the clock's reading.
    pub fn new(title: String, description: Option<String>, priority: Priority) -> (todo: Todo)
        ensures
            todo@ == TodoView::created(
                todo.id@,
                todo.created_at,
                title@,
                opt_text(description),
                priority,
                None,
            ),
            todo.id@.len() == 36,
    {
        let id = fresh_id();
        let now = clock_now();
        Todo::with_identity(id, now, title, description, priority)
    }

    /// A new todo under the identifier `id`, created at `now`.
    pub fn with_identity(
        id: String,
        now: Timestamp,
        title: String,
        description: Option<String>,
        priority: Priority,
    ) -> (todo: Todo)
        ensures
            todo@ == TodoView::created(id@, now, title@, opt_text(description), priority, None),
            title@.len() > 0 ==> todo@.valid(),
    {
        Todo {
            id,
            title,
            description,
            completed: false,
            priority,
            created_at: now,
            updated_at: now,
            due_date: None,
        }
    }

    /// The todo that `request` asks for, under the identifier `id`, created
    /// at `now`. A request without a priority gets medium.
    pub fn from_request(id: String, now: Timestamp, request: CreateTodoRequest) -> (todo: Todo)
        ensures
            todo@ == TodoView::requested(id@, now, request),
            request.title@.len() > 0 ==> todo@.valid(),
    {
        let priority = match request.priority {
            Some(priority) => priority,
            None => Priority::Medium,
        };
        let mut todo = Todo::with_identity(id, now, request.title, request.description, priority);
        todo.due_date = request.due_date;
        todo
    }

    /// The todo that `request` asks for, under a random identifier and
    /// created at the clock's reading.
    pub fn create(request: CreateTodoRequest) -> (todo: Todo)
        ensures
            todo@ == TodoView::requested(todo.id@, todo.created_at, request),
            todo.id@.len() == 36,
            request.title@.len() > 0 ==> todo@.valid(),
    {
        let id = fresh_id();
        let now = clock_now();
        Todo::from_request(id, now, request)
    }

    /// Applies `request` at `now`: the fields it gives replace the record's,
    /// and `updated_at` becomes `now` whether or not anything changed.
    pub fn apply(&mut self, request: UpdateTodoRequest, now: Timestamp)
        ensures
            final(self)@ == old(self)@.patched(request, now),
            old(self)@.valid() && request.keeps_title() && now.not_before(old(self).created_at)
                ==> final(self)@.valid(),
    {
        if let Some(title) = request.title {
            self.title = title;
        }
        if let Some(description) = request.description {
            self.description = Some(description);
        }
        if let Some(completed) = request.completed {
            self.completed = completed;
        }
        if let Some(priority) = request.priority {
            self.priority = priority;
        }
        if let Some(due_date) = request.due_date {
            self.due_date = Some(due_date);
        }
        self.updated_at = now;
    }

    /// Flips the completion of the record at `now`.
    pub fn toggle(&mut self, now: Timestamp)
        ensures
            final(self)@ == old(self)@.toggled(now),
            old(self)@.valid() && now.not_before(old(self).created_at) ==> final(self)@.valid(),
    {
        self.completed = !self.completed;
        self.updated_at = now;
    }
}

} // verus!
