//! The record of the synchronisation service, and what goes over the wire.

use crate::host::{clock_now, fresh_id};
pub use crate::priority::Priority;
pub use crate::request::{CreateTodoRequest, UpdateTodoRequest};
use crate::text::{copy_opt_text, opt_text};
use crate::time::Timestamp;
use vstd::prelude::*;

verus! {

/// A todo item stored in the table.
#[derive(Debug, PartialEq, Eq)]
pub struct Todo {
    pub id: String,
    pub user_id: String,
    pub title: String,
    pub description: Option<String>,
    pub completed: bool,
    pub priority: Priority,
    pub created_at: Timestamp,
    pub updated_at: Timestamp,
    pub due_date: Option<Timestamp>,
}

/// What a stored todo item holds, with its texts as sequences of
/// characters.
pub struct TodoView {
    pub id: Seq<char>,
    pub user_id: Seq<char>,
    pub title: Seq<char>,
    pub description: Option<Seq<char>>,
    pub completed: bool,
    pub priority: Priority,
    pub created_at: Timestamp,
    pub updated_at: Timestamp,
    pub due_date: Option<Timestamp>,
}

impl View for Todo {
    type V = TodoView;

    open spec fn view(&self) -> TodoView {
        TodoView {
            id: self.id@,
            user_id: self.user_id@,
            title: self.title@,
            description: opt_text(self.description),
            completed: self.completed,
            priority: self.priority,
            created_at: self.created_at,
            updated_at: self.updated_at,
            due_date: self.due_date,
        }
    }
}

/// Sync request from client.
#[derive(Debug)]
pub struct SyncRequest {
    pub last_sync: Option<Timestamp>,
    pub todos: Vec<Todo>,
}

/// Sync response to client.
#[derive(Debug)]
pub struct SyncResponse {
    pub todos: Vec<Todo>,
    pub sync_time: Timestamp,
}

/// API response wrapper.
#[derive(Debug)]
pub struct ApiResponse<T> {
    pub success: bool,
    pub data: Option<T>,
    pub error: Option<String>,
}

impl<T> ApiResponse<T> {
    /// The answer reports success and carries `data`.
    pub open spec fn carries(self, data: T) -> bool {
        &&& self.success
        &&& self.data == Some(data)
        &&& self.error is None
    }

    /// The answer reports a failure with `message`, and carries nothing.
    pub open spec fn reports(self, message: Seq<char>) -> bool {
        &&& !self.success
        &&& self.data is None
        &&& self.error matches Some(text) && text@ == message
    }

    /// The answer that carries `data`.
    pub fn success(data: T) -> (response: Self)
        ensures
            response.carries(data),
    {
        Self { success: true, data: Some(data), error: None }
    }

    /// The answer that reports a failure with `message`.
    pub fn error(message: String) -> (response: Self)
        ensures
            response.reports(message@),
            response.error == Some(message),
    {
        Self { success: false, data: None, error: Some(message) }
    }
}

/// What the merge does with a record that a client sent.
#[derive(Clone, Copy, Debug, PartialEq, Eq, Structural)]
pub enum MergeAction {
    /// The table holds no record under the key: it takes the client's.
    Insert,
    /// The client's record is newer: its content replaces the stored one.
    Overwrite,
    /// The stored record is as new or newer: the client's is dropped.
    Discard,
}

impl TodoView {
    /// The title is not empty and the record was not updated before it was
    /// created.
    pub open spec fn valid(self) -> bool {
        &&& self.title.len() > 0
        &&& self.updated_at.not_before(self.created_at)
    }

    /// The record that a creation at `now` under `id` yields for the user
    /// `user_id`.
    pub open spec fn created(
        id: Seq<char>,
        user_id: Seq<char>,
        now: Timestamp,
        title: Seq<char>,
        description: Option<Seq<char>>,
        priority: Priority,
        due_date: Option<Timestamp>,
    ) -> TodoView {
        TodoView {
            id,
            user_id,
            title,
            description,
            completed: false,
            priority,
            created_at: now,
            updated_at: now,
            due_date,
        }
    }

    /// The record that `request` asks for, under `id` at `now`, for the
    /// user `user_id`.
    pub open spec fn requested(
        id: Seq<char>,
        user_id: Seq<char>,
        now: Timestamp,
        request: CreateTodoRequest,
    ) -> TodoView {
        TodoView::created(
            id,
            user_id,
            now,
            request.title@,
            opt_text(request.description),
            request.priority_or_default(),
            request.due_date,
        )
    }

    /// This record after `request` was applied at `now`: the fields that the
    /// request gives are replaced, the others kept.
    pub open spec fn patched(self, request: UpdateTodoRequest, now: Timestamp) -> TodoView {
        TodoView {
            id: self.id,
            user_id: self.user_id,
            title: match request.title {
                Some(title) => title@,
                None => self.title,
            },
            description: match request.description {
                Some(description) => Some(description@),
                None => self.description,
            },
            completed: match request.completed {
                Some(completed) => completed,
                None => self.completed,
            },
            priority: match request.priority {
                Some(priority) => priority,
                None => self.priority,
            },
            created_at: self.created_at,
            updated_at: now,
            due_date: match request.due_date {
                Some(due_date) => Some(due_date),
                None => self.due_date,
            },
        }
    }

    /// This record as the user `user_id` owns it.
    pub open spec fn adopted_by(self, user_id: Seq<char>) -> TodoView {
        TodoView { user_id, ..self }
    }

    /// This record with the content of `incoming`: the title, the
    /// description, the completion, the priority, the time of the update
    /// and the due date are the incoming ones; the identifier, the owner
    /// and the time of creation stay.
    pub open spec fn overwritten_by(self, incoming: TodoView) -> TodoView {
        TodoView {
            id: self.id,
            user_id: self.user_id,
            title: incoming.title,
            description: incoming.description,
            completed: incoming.completed,
            priority: incoming.priority,
            created_at: self.created_at,
            updated_at: incoming.updated_at,
            due_date: incoming.due_date,
        }
    }

    /// What the merge does with `incoming` where the table holds `stored`
    /// under its key: the newer record wins, and the stored one where
    /// neither is newer.
    pub open spec fn merge_rule(stored: Option<TodoView>, incoming: TodoView) -> MergeAction {
        match stored {
            None => MergeAction::Insert,
            Some(stored) => if incoming.updated_at.after(stored.updated_at) {
                MergeAction::Overwrite
            } else {
                MergeAction::Discard
            },
        }
    }
}

impl Clone for Todo {
    fn clone(&self) -> (copy: Todo)
        ensures
            copy == *self,
    {
        Todo {
            id: self.id.clone(),
            user_id: self.user_id.clone(),
            title: self.title.clone(),
            description: copy_opt_text(&self.description),
            completed: self.completed,
            priority: self.priority,
            created_at: self.created_at,
            updated_at: self.updated_at,
            due_date: self.due_date,
        }
    }
}

impl Todo {
    /// A new todo of the user `user_id` under a random identifier, created
    /// at the clock's reading.
    pub fn new(
        user_id: String,
        title: String,
        description: Option<String>,
        priority: Priority,
    ) -> (todo: Todo)
        ensures
            todo@ == TodoView::created(
                todo.id@,
                user_id@,
                todo.created_at,
                title@,
                opt_text(description),
                priority,
                None,
            ),
            todo.id@.len() == 36,
    {
        let id = fresh_id();
        let now = clock_now();
        Todo::with_identity(id, user_id, now, title, description, priority)
    }

    /// A new todo of the user `user_id` under the identifier `id`, created
    /// at `now`.
    pub fn with_identity(
        id: String,
        user_id: String,
        now: Timestamp,
        title: String,
        description: Option<String>,
        priority: Priority,
    ) -> (todo: Todo)
        ensures
            todo@ == TodoView::created(
                id@,
                user_id@,
                now,
                title@,
                opt_text(description),
                priority,
                None,
            ),
            title@.len() > 0 ==> todo@.valid(),
    {
        Todo {
            id,
            user_id,
            title,
            description,
            completed: false,
            priority,
            created_at: now,
            updated_at: now,
            due_date: None,
        }
    }

    /// The todo that `request` asks for, for the user `user_id` under the
    /// identifier `id`, created at `now`. A request without a priority gets
    /// medium.
    pub fn from_request(
        id: String,
        user_id: String,
        now: Timestamp,
        request: CreateTodoRequest,
    ) -> (todo: Todo)
        ensures
            todo@ == TodoView::requested(id@, user_id@, now, request),
            request.title@.len() > 0 ==> todo@.valid(),
    {
        let priority = match request.priority {
            Some(priority) => priority,
            None => Priority::Medium,
        };
        let mut todo = Todo::with_identity(
            id,
            user_id,
            now,
            request.title,
            request.description,
            priority,
        );
        todo.due_date = request.due_date;
        todo
    }

    /// The todo that `request` asks for, for the user `user_id`, under a
    /// random identifier and created at the clock's reading.
    pub fn create(user_id: String, request: CreateTodoRequest) -> (todo: Todo)
        ensures
            todo@ == TodoView::requested(todo.id@, user_id@, todo.created_at, request),
            todo.id@.len() == 36,
            request.title@.len() > 0 ==> todo@.valid(),
    {
        let id = fresh_id();
        let now = clock_now();
        Todo::from_request(id, user_id, now, request)
    }

    /// Applies `request` at `now`: the fields it gives replace the record's,
    /// and `updated_at` becomes `now` whether or not anything changed.
    pub fn apply(&mut self, request: UpdateTodoRequest, now: Timestamp)
        ensures
            final(self)@ == old(self)@.patched(request, now),
            old(self)@.valid() && request.keeps_title() && now.not_before(old(self).created_at)
                ==> final(self)@.valid(),
    {
        if let Some(title) = request.title {
            self.title = title;
        }
        if let Some(description) = request.description {
            self.description = Some(description);
        }
        if let Some(completed) = request.completed {
            self.completed = completed;
        }
        if let Some(priority) = request.priority {
            self.priority = priority;
        }
        if let Some(due_date) = request.due_date {
            self.due_date = Some(due_date);
        }
        self.updated_at = now;
    }

    /// A copy of this record that belongs to the user `user_id`.
    pub fn adopted_by(&self, user_id: String) -> (todo: Todo)
        ensures
            todo@ == self@.adopted_by(user_id@),
    {
        Todo {
            id: self.id.clone(),
            user_id,
            title: self.title.clone(),
            description: copy_opt_text(&self.description),
            completed: self.completed,
            priority: self.priority,
            created_at: self.created_at,
            updated_at: self.updated_at,
            due_date: self.due_date,
        }
    }

    /// Replaces the content of this record by that of `incoming`, and keeps
    /// its identifier, its owner and its time of creation.
    pub fn overwrite_with(&mut self, incoming: &Todo)
        ensures
            final(self)@ == old(self)@.overwritten_by(incoming@),
    {
        self.title = incoming.title.clone();
        self.description = copy_opt_text(&incoming.description);
        self.completed = incoming.completed;
        self.priority = incoming.priority;
        self.updated_at = incoming.updated_at;
        self.due_date = incoming.due_date;
    }

    /// What the merge does with `incoming` where `stored` is what the table
    /// holds under its key.
    pub fn merge_action(stored: Option<&Todo>, incoming: &Todo) -> (action: MergeAction)
        ensures
            action == TodoView::merge_rule(
                match stored {
                    Some(stored) => Some(stored@),
                    None => None,
                },
                incoming@,
            ),
    {
        match stored {
            None => MergeAction::Insert,
            Some(stored) => if incoming.updated_at.is_after(&stored.updated_at) {
                MergeAction::Overwrite
            } else {
                MergeAction::Discard
            },
        }
    }
}

} // verus!
