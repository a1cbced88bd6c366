//! The routes of the synchronisation service, on a table in memory.

use crate::error::StoreError;
use crate::host::{clock_now, fresh_id};
use crate::request::{CreateTodoRequest, UpdateTodoRequest};
use crate::seqs::lemma_filter_holds;
use crate::server::models::{ApiResponse, MergeAction, SyncRequest, SyncResponse, Todo, TodoView};
use crate::server::table::{
    all_valid, changed_records, deleted, find_by_key, has_key, lemma_position, listing, merged,
    merged_one, newest_created_first, newest_updated_first, not_before_creation, owned,
    owned_records, position, record_views, sync_listing, unique_keys, updated, TodoTable,
};
use crate::time::Timestamp;
use vstd::prelude::*;

verus! {

/// Health check endpoint.
pub fn health_check() -> (answer: &'static str)
    ensures
        answer@ == "OK"@,
{
    "OK"
}

/// Get all todos for a user, newest created first.
pub fn get_todos(table: &TodoTable, user_id: String) -> (response: ApiResponse<Vec<Todo>>)
    ensures
        response.success,
        response.error is None,
        response.data matches Some(todos) && record_views(todos@) == listing(table@, user_id@),
        unique_keys(table@),
{
    let owned = owned_records(table.rows(), &user_id);
    ApiResponse::success(newest_created_first(&owned))
}

/// Puts the todo that `request` asks for into the table, for the user
/// `user_id`, under the identifier `id` and created at `now`. The table
/// refuses an identifier under which it holds a record of that user.
pub fn create_todo_with(
    table: &mut TodoTable,
    user_id: String,
    request: CreateTodoRequest,
    id: String,
    now: Timestamp,
) -> (outcome: Result<ApiResponse<Todo>, StoreError>)
    ensures
        match outcome {
            Ok(response) => {
                &&& !has_key(old(table)@, user_id@, id@)
                &&& response.success
                &&& response.error is None
                &&& response.data matches Some(todo) && todo@ == TodoView::requested(
                    id@,
                    user_id@,
                    now,
                    request,
                ) && final(table)@ == old(table)@.push(todo@)
            },
            Err(e) => {
                &&& has_key(old(table)@, user_id@, id@)
                &&& e == StoreError::StorageFault
                &&& final(table)@ == old(table)@
            },
        },
        unique_keys(final(table)@),
        all_valid(old(table)@) && request.title@.len() > 0 ==> all_valid(final(table)@),
{
    match find_by_key(table.rows(), &user_id, &id) {
        Some(_) => Err(StoreError::StorageFault),
        None => {
            let todo = Todo::from_request(id, user_id, now, request);
            let copy = todo.clone();
            let mut rows = table.take_rows();
            let ghost before = record_views(rows@);
            rows.push(todo);
            assert(record_views(rows@) =~= before.push(todo@));
            table.put_rows(rows);
            Ok(ApiResponse::success(copy))
        },
    }
}

/// Create a new todo for a user, under a random identifier and created at
/// the clock's reading. The creation fails only where the identifier is one
/// under which the table holds a record of that user.
pub fn create_todo(
    table: &mut TodoTable,
    user_id: String,
    request: CreateTodoRequest,
) -> (outcome: Result<ApiResponse<Todo>, StoreError>)
    ensures
        match outcome {
            Ok(response) => {
                &&& response.success
                &&& response.error is None
                &&& response.data matches Some(todo) && !has_key(old(table)@, user_id@, todo.id@)
                    && todo@ == TodoView::requested(todo.id@, user_id@, todo.created_at, request)
                    && final(table)@ == old(table)@.push(todo@)
            },
            Err(e) => {
                &&& e == StoreError::StorageFault
                &&& final(table)@ == old(table)@
                &&& old(table)@.filter(owned(user_id@)).len() > 0
            },
        },
        unique_keys(final(table)@),
        all_valid(old(table)@) && request.title@.len() > 0 ==> all_valid(final(table)@),
{
    let id = fresh_id();
    let now = clock_now();
    proof {
        lemma_filter_holds(table@, owned(user_id@));
        if has_key(table@, user_id@, id@) {
            let stored = table@[position(table@, user_id@, id@)];
            assert(table@.contains(stored));
            assert(table@.filter(owned(user_id@)).contains(stored));
        }
    }
    create_todo_with(table, user_id, request, id, now)
}

/// Applies `request` at `now` to the todo of the user `user_id` under
/// `todo_id`.
pub fn update_todo_at(
    table: &mut TodoTable,
    user_id: String,
    todo_id: String,
    request: UpdateTodoRequest,
    now: Timestamp,
) -> (outcome: Result<ApiResponse<Todo>, StoreError>)
    ensures
        match outcome {
            Ok(response) => {
                &&& has_key(old(table)@, user_id@, todo_id@)
                &&& response.success
                &&& response.error is None
                &&& response.data matches Some(todo) && todo@ == old(table)@[position(
                    old(table)@,
                    user_id@,
                    todo_id@,
                )].patched(request, now)
                &&& final(table)@ == updated(old(table)@, user_id@, todo_id@, request, now)
            },
            Err(e) => {
                &&& !has_key(old(table)@, user_id@, todo_id@)
                &&& e == StoreError::NotFound
                &&& final(table)@ == old(table)@
            },
        },
        unique_keys(final(table)@),
        all_valid(old(table)@) && request.keeps_title() && not_before_creation(
            old(table)@,
            user_id@,
            todo_id@,
            now,
        ) ==> all_valid(final(table)@),
{
    match find_by_key(table.rows(), &user_id, &todo_id) {
        Some(i) => {
            proof {
                lemma_position(table@, user_id@, todo_id@, i as int);
            }
            let mut rows = table.take_rows();
            let ghost before = record_views(rows@);
            rows[i].apply(request, now);
            let copy = rows[i].clone();
            assert(record_views(rows@) =~= updated(before, user_id@, todo_id@, request, now));
            table.put_rows(rows);
            Ok(ApiResponse::success(copy))
        },
        None => Err(StoreError::NotFound),
    }
}

/// Update a todo at the clock's reading.
pub fn update_todo(
    table: &mut TodoTable,
    user_id: String,
    todo_id: String,
    request: UpdateTodoRequest,
) -> (outcome: Result<ApiResponse<Todo>, StoreError>)
    ensures
        match outcome {
            Ok(response) => {
                &&& has_key(old(table)@, user_id@, todo_id@)
                &&& response.success
                &&& response.error is None
                &&& response.data matches Some(todo) && todo@ == old(table)@[position(
                    old(table)@,
                    user_id@,
                    todo_id@,
                )].patched(request, todo.updated_at) && final(table)@ == updated(
                    old(table)@,
                    user_id@,
                    todo_id@,
                    request,
                    todo.updated_at,
                )
            },
            Err(e) => {
                &&& !has_key(old(table)@, user_id@, todo_id@)
                &&& e == StoreError::NotFound
                &&& final(table)@ == old(table)@
            },
        },
        unique_keys(final(table)@),
{
    let now = clock_now();
    update_todo_at(table, user_id, todo_id, request, now)
}

/// Delete a todo.
pub fn delete_todo(
    table: &mut TodoTable,
    user_id: String,
    todo_id: String,
) -> (outcome: Result<ApiResponse<()>, StoreError>)
    ensures
        match outcome {
            Ok(response) => {
                &&& has_key(old(table)@, user_id@, todo_id@)
                &&& response.carries(())
                &&& final(table)@ == deleted(old(table)@, user_id@, todo_id@)
            },
            Err(e) => {
                &&& !has_key(old(table)@, user_id@, todo_id@)
                &&& e == StoreError::NotFound
                &&& final(table)@ == old(table)@
            },
        },
        unique_keys(final(table)@),
        all_valid(old(table)@) ==> all_valid(final(table)@),
{
    match find_by_key(table.rows(), &user_id, &todo_id) {
        Some(i) => {
            proof {
                lemma_position(table@, user_id@, todo_id@, i as int);
            }
            let mut rows = table.take_rows();
            let ghost before = record_views(rows@);
            rows.remove(i);
            assert(record_views(rows@) =~= deleted(before, user_id@, todo_id@));
            table.put_rows(rows);
            Ok(ApiResponse::success(()))
        },
        None => Err(StoreError::NotFound),
    }
}

/// Merges the records that a client sent into the table, for the user
/// `user_id`, and answers with that user's records that were updated later
/// than the client's last synchronisation, newest updated first; `now` is
/// handed back as the time of this synchronisation.
pub fn sync_todos_at(
    table: &mut TodoTable,
    user_id: String,
    request: SyncRequest,
    now: Timestamp,
) -> (response: SyncResponse)
    ensures
        final(table)@ == merged(old(table)@, user_id@, record_views(request.todos@)),
        record_views(response.todos@) == sync_listing(final(table)@, user_id@, request.last_sync),
        response.sync_time == now,
        unique_keys(final(table)@),
        all_valid(old(table)@) && all_valid(record_views(request.todos@)) ==> all_valid(
            final(table)@,
        ),
{
    let mut rows = table.take_rows();
    let ghost before = record_views(rows@);
    let ghost batch = record_views(request.todos@);
    let mut k: usize = 0;
    assert(batch.take(0) =~= Seq::<TodoView>::empty());
    while k < request.todos.len()
        invariant
            k <= request.todos.len(),
            batch == record_views(request.todos@),
            unique_keys(record_views(rows@)),
            record_views(rows@) == merged(before, user_id@, batch.take(k as int)),
            all_valid(before) && all_valid(batch) ==> all_valid(record_views(rows@)),
        decreases request.todos.len() - k,
    {
        let incoming = &request.todos[k];
        let ghost s = record_views(rows@);
        let found = find_by_key(&rows, &user_id, &incoming.id);
        proof {
            if let Some(i) = found {
                lemma_position(s, user_id@, incoming.id@, i as int);
            }
            if all_valid(before) && all_valid(batch) {
                assert(batch[k as int].valid());
            }
            assert(batch.take(k + 1).drop_last() =~= batch.take(k as int));
            assert(batch.take(k + 1).last() == incoming@);
        }
        let action = match found {
            Some(i) => Todo::merge_action(Some(&rows[i]), incoming),
            None => Todo::merge_action(None, incoming),
        };
        match action {
            MergeAction::Insert => {
                rows.push(incoming.adopted_by(user_id.clone()));
            },
            MergeAction::Overwrite => {
                if let Some(i) = found {
                    rows[i].overwrite_with(incoming);
                }
            },
            MergeAction::Discard => {},
        }
        assert(record_views(rows@) =~= merged_one(s, user_id@, incoming@));
        k += 1;
    }
    assert(batch.take(request.todos.len() as int) =~= batch);
    table.put_rows(rows);
    let changed = changed_records(table.rows(), &user_id, request.last_sync);
    let todos = newest_updated_first(&changed);
    SyncResponse { todos, sync_time: now }
}

/// Sync todos between client and server, at the clock's reading.
pub fn sync_todos(
    table: &mut TodoTable,
    user_id: String,
    request: SyncRequest,
) -> (response: SyncResponse)
    ensures
        final(table)@ == merged(old(table)@, user_id@, record_views(request.todos@)),
        record_views(response.todos@) == sync_listing(final(table)@, user_id@, request.last_sync),
        unique_keys(final(table)@),
        all_valid(old(table)@) && all_valid(record_views(request.todos@)) ==> all_valid(
            final(table)@,
        ),
{
    let now = clock_now();
    sync_todos_at(table, user_id, request, now)
}

} // verus!
