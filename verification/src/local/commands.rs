//! The operations of the local store.
//!
//! The store is modelled by the sequence of the views of its records, in
//! the order in which the records came in. Every operation says what it does
//! to that sequence.

use crate::error::StoreError;
use crate::host::{clock_now, fresh_id};
use crate::local::models::{CreateTodoRequest, Todo, TodoView, UpdateTodoRequest};
use crate::order::{arranged, newest_first_arrangement, newest_first_order, positions};
use crate::seqs::{lemma_filter_holds, lemma_filter_next};
use crate::time::Timestamp;
use vstd::prelude::*;

verus! {

/// The views of records, in their order.
pub open spec fn record_views(records: Seq<Todo>) -> Seq<TodoView> {
    records.map_values(|t: Todo| t@)
}

/// Some record of `s` goes under `id`.
pub open spec fn has_id(s: Seq<TodoView>, id: Seq<char>) -> bool {
    exists|i: int| 0 <= i < s.len() && (#[trigger] s[i]).id == id
}

/// The position at which `s` holds the record under `id`, where it holds
/// one.
pub open spec fn position(s: Seq<TodoView>, id: Seq<char>) -> int {
    choose|i: int| 0 <= i < s.len() && (#[trigger] s[i]).id == id
}

/// No two records of `s` share an identifier.
pub open spec fn unique_ids(s: Seq<TodoView>) -> bool {
    forall|i: int, j: int| 0 <= i < j < s.len() ==> (#[trigger] s[i]).id != (#[trigger] s[j]).id
}

/// Every record of `s` is valid.
pub open spec fn all_valid(s: Seq<TodoView>) -> bool {
    forall|i: int| 0 <= i < s.len() ==> (#[trigger] s[i]).valid()
}

/// The creation times of the records of `s`, in their order.
pub open spec fn created_keys(s: Seq<TodoView>) -> Seq<Timestamp> {
    s.map_values(|t: TodoView| t.created_at)
}

/// The records of `s` as a listing shows them: newest created first, and
/// records created at the same instant in the order in which they came in.
pub open spec fn listing(s: Seq<TodoView>) -> Seq<TodoView> {
    arranged(s, newest_first_arrangement(created_keys(s)))
}

/// `s` after `request` was applied at `now` to its record under `id`.
pub open spec fn updated(
    s: Seq<TodoView>,
    id: Seq<char>,
    request: UpdateTodoRequest,
    now: Timestamp,
) -> Seq<TodoView> {
    s.update(position(s, id), s[position(s, id)].patched(request, now))
}

/// `s` after the completion of its record under `id` was flipped at `now`.
pub open spec fn toggled(s: Seq<TodoView>, id: Seq<char>, now: Timestamp) -> Seq<TodoView> {
    s.update(position(s, id), s[position(s, id)].toggled(now))
}

/// Where `s` holds a record under `id`, `now` is not earlier than the
/// creation of that record.
pub open spec fn not_before_creation(s: Seq<TodoView>, id: Seq<char>, now: Timestamp) -> bool {
    has_id(s, id) ==> now.not_before(s[position(s, id)].created_at)
}

/// `s` without its record under `id`.
pub open spec fn deleted(s: Seq<TodoView>, id: Seq<char>) -> Seq<TodoView> {
    s.remove(position(s, id))
}

/// The record is not completed.
pub open spec fn still_open() -> spec_fn(TodoView) -> bool {
    |t: TodoView| !t.completed
}

/// The records of `s` that are not completed, in their order.
pub open spec fn open_only(s: Seq<TodoView>) -> Seq<TodoView> {
    s.filter(still_open())
}

/// Where identifiers are unique, the record under `id` has one position.
pub proof fn lemma_position(s: Seq<TodoView>, id: Seq<char>, i: int)
    requires
        unique_ids(s),
        0 <= i < s.len(),
        s[i].id == id,
    ensures
        has_id(s, id),
        position(s, id) == i,
{
}

/// Leaving completed records out keeps exactly the records that are not
/// completed, each as it is; identifiers stay unique and records valid.
pub proof fn lemma_open_only(s: Seq<TodoView>)
    ensures
        forall|t: TodoView|
            #![trigger open_only(s).contains(t)]
            open_only(s).contains(t) <==> s.contains(t) && !t.completed,
        unique_ids(s) ==> unique_ids(open_only(s)),
        all_valid(s) ==> all_valid(open_only(s)),
    decreases s.len(),
{
    lemma_filter_holds(s, still_open());
    if s.len() > 0 {
        let rest = s.drop_last();
        let kept = open_only(rest);
        let all = open_only(s);
        lemma_open_only(rest);
        lemma_filter_next(s, still_open(), s.len() - 1);
        assert(s.take(s.len() - 1) =~= rest);
        assert(s.take(s.len() as int) =~= s);
        if unique_ids(s) {
            assert forall|i: int, j: int| 0 <= i < j < rest.len() implies (#[trigger] rest[i]).id
                != (#[trigger] rest[j]).id by {
                assert(s[i].id != s[j].id);
            }
            assert forall|i: int, j: int| 0 <= i < j < all.len() implies (#[trigger] all[i]).id
                != (#[trigger] all[j]).id by {
                if j < kept.len() {
                    assert(kept[i].id != kept[j].id);
                } else {
                    assert(kept.contains(kept[i]));
                    let k = choose|k: int| 0 <= k < rest.len() && rest[k] == kept[i];
                    assert(s[k].id != s[s.len() - 1].id);
                }
            }
        }
        if all_valid(s) {
            assert forall|i: int| 0 <= i < rest.len() implies (#[trigger] rest[i]).valid() by {
                assert(s[i].valid());
            }
            assert forall|i: int| 0 <= i < all.len() implies (#[trigger] all[i]).valid() by {
                if i < kept.len() {
                    assert(kept[i].valid());
                } else {
                    assert(s[s.len() - 1].valid());
                }
            }
        }
    }
}

/// Application state: the records of the store, in the order in which they
/// came in. No two of them share an identifier.
pub struct AppState {
    todos: Vec<Todo>,
}

impl View for AppState {
    type V = Seq<TodoView>;

    closed spec fn view(&self) -> Seq<TodoView> {
        record_views(self.todos@)
    }
}

impl AppState {
    #[verifier::type_invariant]
    spec fn ids_are_unique(self) -> bool {
        unique_ids(record_views(self.todos@))
    }

    /// An empty store.
    pub fn new() -> (state: AppState)
        ensures
            state@ == Seq::<TodoView>::empty(),
    {
        let state = AppState { todos: Vec::new() };
        assert(state@ =~= Seq::<TodoView>::empty());
        state
    }

    /// Hands out the records and leaves the store empty.
    fn take_records(&mut self) -> (records: Vec<Todo>)
        ensures
            records@ == old(self).todos@,
            unique_ids(record_views(records@)),
            final(self).todos@ == Seq::<Todo>::empty(),
    {
        proof {
            use_type_invariant(&*self);
        }
        let mut records: Vec<Todo> = Vec::new();
        core::mem::swap(&mut self.todos, &mut records);
        records
    }
}

/// The first position at which the records hold one under `id`.
pub fn find_by_id(records: &Vec<Todo>, id: &String) -> (found: Option<usize>)
    ensures
        match found {
            Some(i) => i < records.len() && records[i as int].id@ == id@ && forall|j: int|
                0 <= j < i ==> (#[trigger] records[j]).id@ != id@,
            None => !has_id(record_views(records@), id@),
        },
{
    let mut i: usize = 0;
    while i < records.len()
        invariant
            i <= records.len(),
            forall|j: int| 0 <= j < i ==> (#[trigger] records[j]).id@ != id@,
        decreases records.len() - i,
    {
        if records[i].id == *id {
            return Some(i);
        }
        i += 1;
    }
    assert forall|j: int| 0 <= j < records.len() implies (#[trigger] record_views(records@)[j]).id
        != id@ by {
        assert(records[j].id@ != id@);
    }
    None
}

/// Whether no two of the records share an identifier.
pub fn has_unique_ids(records: &Vec<Todo>) -> (unique: bool)
    ensures
        unique == unique_ids(record_views(records@)),
{
    let ghost s = record_views(records@);
    let mut j: usize = 0;
    while j < records.len()
        invariant
            j <= records.len(),
            s == record_views(records@),
            forall|a: int, b: int| 0 <= a < b < j ==> (#[trigger] s[a]).id != (#[trigger] s[b]).id,
        decreases records.len() - j,
    {
        let mut i: usize = 0;
        while i < j
            invariant
                i <= j < records.len(),
                s == record_views(records@),
                forall|a: int| 0 <= a < i ==> (#[trigger] s[a]).id != s[j as int].id,
            decreases j - i,
        {
            if records[i].id == records[j].id {
                assert(s[i as int].id == s[j as int].id);
                return false;
            }
            i += 1;
        }
        j += 1;
    }
    true
}

/// The records newest created first; records created at the same instant
/// keep their order.
pub fn newest_created_first(records: &Vec<Todo>) -> (listed: Vec<Todo>)
    ensures
        record_views(listed@) == listing(record_views(records@)),
{
    let ghost s = record_views(records@);
    let mut keys: Vec<Timestamp> = Vec::new();
    let mut i: usize = 0;
    while i < records.len()
        invariant
            i <= records.len(),
            keys.len() == i,
            forall|j: int| 0 <= j < i ==> (#[trigger] keys[j]) == records[j].created_at,
        decreases records.len() - i,
    {
        keys.push(records[i].created_at);
        i += 1;
    }
    assert(keys@ =~= created_keys(s));
    let order = newest_first_order(&keys);
    assert forall|j: int| 0 <= j < order.len() implies (#[trigger] order[j]) < records.len() by {
        assert(positions(order@)[j] == order[j]);
    }
    let mut listed: Vec<Todo> = Vec::new();
    let mut i: usize = 0;
    while i < order.len()
        invariant
            i <= order.len(),
            listed.len() == i,
            forall|j: int| 0 <= j < order.len() ==> (#[trigger] order[j]) < records.len(),
            forall|j: int| 0 <= j < i ==> (#[trigger] listed[j]) == records[order[j] as int],
        decreases order.len() - i,
    {
        listed.push(records[order[i]].clone());
        i += 1;
    }
    assert(record_views(listed@) =~= arranged(s, positions(order@)));
    listed
}

/// Get all todos, newest created first.
pub fn get_todos(state: &AppState) -> (todos: Vec<Todo>)
    ensures
        record_views(todos@) == listing(state@),
        unique_ids(state@),
{
    proof {
        use_type_invariant(state);
    }
    newest_created_first(&state.todos)
}

/// Puts the todo that `request` asks for into the store, under the
/// identifier `id` and created at `now`. The store refuses an identifier
/// that one of its records has.
pub fn create_todo_with(
    request: CreateTodoRequest,
    id: String,
    now: Timestamp,
    state: &mut AppState,
) -> (outcome: Result<Todo, StoreError>)
    ensures
        match outcome {
            Ok(todo) => {
                &&& !has_id(old(state)@, id@)
                &&& todo@ == TodoView::requested(id@, now, request)
                &&& final(state)@ == old(state)@.push(todo@)
            },
            Err(e) => {
                &&& has_id(old(state)@, id@)
                &&& e == StoreError::StorageFault
                &&& final(state)@ == old(state)@
            },
        },
        unique_ids(final(state)@),
        all_valid(old(state)@) && request.title@.len() > 0 ==> all_valid(final(state)@),
{
    proof {
        use_type_invariant(&*state);
    }
    match find_by_id(&state.todos, &id) {
        Some(i) => {
            assert(state@[i as int].id == id@);
            Err(StoreError::StorageFault)
        },
        None => {
            let todo = Todo::from_request(id, now, request);
            let copy = todo.clone();
            let mut records = state.take_records();
            records.push(todo);
            assert(record_views(records@) =~= old(state)@.push(todo@));
            state.todos = records;
            Ok(copy)
        },
    }
}

/// Create a new todo, under a random identifier and created at the clock's
/// reading. The creation fails only where the identifier is one that a
/// stored record has.
pub fn create_todo(
    request: CreateTodoRequest,
    state: &mut AppState,
) -> (outcome: Result<Todo, StoreError>)
    ensures
        match outcome {
            Ok(todo) => {
                &&& !has_id(old(state)@, todo.id@)
                &&& todo@ == TodoView::requested(todo.id@, todo.created_at, request)
                &&& final(state)@ == old(state)@.push(todo@)
            },
            Err(e) => {
                &&& e == StoreError::StorageFault
                &&& final(state)@ == old(state)@
                &&& old(state)@.len() > 0
            },
        },
        unique_ids(final(state)@),
        all_valid(old(state)@) && request.title@.len() > 0 ==> all_valid(final(state)@),
{
    let id = fresh_id();
    let now = clock_now();
    create_todo_with(request, id, now, state)
}

/// Applies `request` at `now` to the todo under `id`.
pub fn update_todo_at(
    id: String,
    request: UpdateTodoRequest,
    now: Timestamp,
    state: &mut AppState,
) -> (outcome: Result<Todo, StoreError>)
    ensures
        match outcome {
            Ok(todo) => {
                &&& has_id(old(state)@, id@)
                &&& final(state)@ == updated(old(state)@, id@, request, now)
                &&& todo@ == old(state)@[position(old(state)@, id@)].patched(request, now)
            },
            Err(e) => {
                &&& !has_id(old(state)@, id@)
                &&& e == StoreError::NotFound
                &&& final(state)@ == old(state)@
            },
        },
        unique_ids(final(state)@),
        all_valid(old(state)@) && request.keeps_title() && not_before_creation(
            old(state)@,
            id@,
            now,
        ) ==> all_valid(final(state)@),
{
    proof {
        use_type_invariant(&*state);
    }
    match find_by_id(&state.todos, &id) {
        Some(i) => {
            proof {
                lemma_position(state@, id@, i as int);
            }
            let mut records = state.take_records();
            records[i].apply(request, now);
            let copy = records[i].clone();
            assert(record_views(records@) =~= updated(old(state)@, id@, request, now));
            state.todos = records;
            Ok(copy)
        },
        None => Err(StoreError::NotFound),
    }
}

/// Update an existing todo at the clock's reading.
pub fn update_todo(
    id: String,
    request: UpdateTodoRequest,
    state: &mut AppState,
) -> (outcome: Result<Todo, StoreError>)
    ensures
        match outcome {
            Ok(todo) => {
                &&& has_id(old(state)@, id@)
                &&& final(state)@ == updated(old(state)@, id@, request, todo.updated_at)
                &&& todo@ == old(state)@[position(old(state)@, id@)].patched(
                    request,
                    todo.updated_at,
                )
            },
            Err(e) => {
                &&& !has_id(old(state)@, id@)
                &&& e == StoreError::NotFound
                &&& final(state)@ == old(state)@
            },
        },
        unique_ids(final(state)@),
{
    let now = clock_now();
    update_todo_at(id, request, now, state)
}

/// Flips the completion of the todo under `id` at `now`.
pub fn toggle_todo_at(
    id: String,
    now: Timestamp,
    state: &mut AppState,
) -> (outcome: Result<Todo, StoreError>)
    ensures
        match outcome {
            Ok(todo) => {
                &&& has_id(old(state)@, id@)
                &&& final(state)@ == toggled(old(state)@, id@, now)
                &&& todo@ == old(state)@[position(old(state)@, id@)].toggled(now)
            },
            Err(e) => {
                &&& !has_id(old(state)@, id@)
                &&& e == StoreError::NotFound
                &&& final(state)@ == old(state)@
            },
        },
        unique_ids(final(state)@),
        all_valid(old(state)@) && not_before_creation(old(state)@, id@, now) ==> all_valid(
            final(state)@,
        ),
{
    proof {
        use_type_invariant(&*state);
    }
    match find_by_id(&state.todos, &id) {
        Some(i) => {
            proof {
                lemma_position(state@, id@, i as int);
            }
            let mut records = state.take_records();
            records[i].toggle(now);
            let copy = records[i].clone();
            assert(record_views(records@) =~= toggled(old(state)@, id@, now));
            state.todos = records;
            Ok(copy)
        },
        None => Err(StoreError::NotFound),
    }
}

/// Toggle todo completion status at the clock's reading.
pub fn toggle_todo(id: String, state: &mut AppState) -> (outcome: Result<Todo, StoreError>)
    ensures
        match outcome {
            Ok(todo) => {
                &&& has_id(old(state)@, id@)
                &&& final(state)@ == toggled(old(state)@, id@, todo.updated_at)
                &&& todo@ == old(state)@[position(old(state)@, id@)].toggled(todo.updated_at)
            },
            Err(e) => {
                &&& !has_id(old(state)@, id@)
                &&& e == StoreError::NotFound
                &&& final(state)@ == old(state)@
            },
        },
        unique_ids(final(state)@),
{
    let now = clock_now();
    toggle_todo_at(id, now, state)
}

/// Delete a todo.
pub fn delete_todo(id: String, state: &mut AppState) -> (outcome: Result<(), StoreError>)
    ensures
        match outcome {
            Ok(_) => has_id(old(state)@, id@) && final(state)@ == deleted(old(state)@, id@),
            Err(e) => {
                &&& !has_id(old(state)@, id@)
                &&& e == StoreError::NotFound
                &&& final(state)@ == old(state)@
            },
        },
        unique_ids(final(state)@),
        all_valid(old(state)@) ==> all_valid(final(state)@),
{
    proof {
        use_type_invariant(&*state);
    }
    match find_by_id(&state.todos, &id) {
        Some(i) => {
            proof {
                lemma_position(state@, id@, i as int);
            }
            let mut records = state.take_records();
            records.remove(i);
            assert(record_views(records@) =~= deleted(old(state)@, id@));
            state.todos = records;
            Ok(())
        },
        None => Err(StoreError::NotFound),
    }
}

/// Sync local state with remote todos: the store drops what it holds and
/// takes the given records as they are, or, where two of them share an
/// identifier, refuses them and keeps what it holds.
pub fn sync_local(
    remote_todos: Vec<Todo>,
    state: &mut AppState,
) -> (outcome: Result<(), StoreError>)
    ensures
        match outcome {
            Ok(_) => {
                &&& unique_ids(record_views(remote_todos@))
                &&& final(state)@ == record_views(remote_todos@)
            },
            Err(e) => {
                &&& !unique_ids(record_views(remote_todos@))
                &&& e == StoreError::StorageFault
                &&& final(state)@ == old(state)@
            },
        },
        unique_ids(final(state)@),
        all_valid(old(state)@) && all_valid(record_views(remote_todos@)) ==> all_valid(
            final(state)@,
        ),
{
    proof {
        use_type_invariant(&*state);
    }
    if has_unique_ids(&remote_todos) {
        state.todos = remote_todos;
        Ok(())
    } else {
        Err(StoreError::StorageFault)
    }
}

/// Clear all completed todos; the todos that remain are returned, newest
/// created first.
pub fn clear_completed(state: &mut AppState) -> (remaining: Vec<Todo>)
    ensures
        final(state)@ == open_only(old(state)@),
        record_views(remaining@) == listing(final(state)@),
        unique_ids(final(state)@),
        all_valid(old(state)@) ==> all_valid(final(state)@),
{
    let records = state.take_records();
    let ghost before = record_views(records@);
    let mut kept: Vec<Todo> = Vec::new();
    let mut i: usize = 0;
    assert(before.take(0) =~= Seq::<TodoView>::empty());
    while i < records.len()
        invariant
            i <= records.len(),
            before == record_views(records@),
            record_views(kept@) == open_only(before.take(i as int)),
        decreases records.len() - i,
    {
        proof {
            lemma_filter_next(before, still_open(), i as int);
        }
        if !records[i].completed {
            kept.push(records[i].clone());
        }
        i += 1;
        assert(record_views(kept@) =~= open_only(before.take(i as int)));
    }
    proof {
        assert(before.take(records.len() as int) =~= before);
        lemma_open_only(before);
    }
    state.todos = kept;
    newest_created_first(&state.todos)
}

} // verus!
