//! The table of the synchronisation service and its model.
//!
//! The table is modelled by the sequence of the views of its rows, in the
//! order in which the rows came in. A row goes under the pair of its owner
//! and its identifier, and no two rows go under the same pair.

use crate::order::{arranged, newest_first_arrangement, newest_first_order, positions};
use crate::seqs::lemma_filter_next;
use crate::server::models::{MergeAction, Todo, TodoView};
use crate::request::UpdateTodoRequest;
use crate::time::Timestamp;
use vstd::prelude::*;

verus! {

/// The views of records, in their order.
pub open spec fn record_views(records: Seq<Todo>) -> Seq<TodoView> {
    records.map_values(|t: Todo| t@)
}

/// `s` holds the record of the user `user_id` under `id` at position `i`.
pub open spec fn is_at(s: Seq<TodoView>, user_id: Seq<char>, id: Seq<char>, i: int) -> bool {
    0 <= i < s.len() && s[i].user_id == user_id && s[i].id == id
}

/// `s` holds a record of the user `user_id` under `id`.
pub open spec fn has_key(s: Seq<TodoView>, user_id: Seq<char>, id: Seq<char>) -> bool {
    exists|i: int| 0 <= i < s.len() && (#[trigger] s[i]).user_id == user_id && s[i].id == id
}

/// The position at which `s` holds the record of the user `user_id` under
/// `id`, where it holds one.
pub open spec fn position(s: Seq<TodoView>, user_id: Seq<char>, id: Seq<char>) -> int {
    choose|i: int| 0 <= i < s.len() && (#[trigger] s[i]).user_id == user_id && s[i].id == id
}

/// No two records of `s` have both the owner and the identifier in common.
pub open spec fn unique_keys(s: Seq<TodoView>) -> bool {
    forall|i: int, j: int|
        0 <= i < j < s.len() ==> !((#[trigger] s[i]).user_id == (#[trigger] s[j]).user_id && s[i].id
            == s[j].id)
}

/// Every record of `s` is valid.
pub open spec fn all_valid(s: Seq<TodoView>) -> bool {
    forall|i: int| 0 <= i < s.len() ==> (#[trigger] s[i]).valid()
}

/// Where `s` holds a record of the user `user_id` under `id`, `now` is not
/// earlier than the creation of that record.
pub open spec fn not_before_creation(
    s: Seq<TodoView>,
    user_id: Seq<char>,
    id: Seq<char>,
    now: Timestamp,
) -> bool {
    has_key(s, user_id, id) ==> now.not_before(s[position(s, user_id, id)].created_at)
}

/// The record belongs to the user `user_id`.
pub open spec fn owned(user_id: Seq<char>) -> spec_fn(TodoView) -> bool {
    |t: TodoView| t.user_id == user_id
}

/// The record belongs to the user `user_id` and, where `last_sync` is
/// given, was updated later than that.
pub open spec fn owned_and_changed(
    user_id: Seq<char>,
    last_sync: Option<Timestamp>,
) -> spec_fn(TodoView) -> bool {
    |t: TodoView|
        t.user_id == user_id && (last_sync matches Some(since) ==> t.updated_at.after(since))
}

/// The creation times of the records of `s`, in their order.
pub open spec fn created_keys(s: Seq<TodoView>) -> Seq<Timestamp> {
    s.map_values(|t: TodoView| t.created_at)
}

/// The update times of the records of `s`, in their order.
pub open spec fn updated_keys(s: Seq<TodoView>) -> Seq<Timestamp> {
    s.map_values(|t: TodoView| t.updated_at)
}

/// The records of `s` newest created first; records created at the same
/// instant keep their order.
pub open spec fn by_creation(s: Seq<TodoView>) -> Seq<TodoView> {
    arranged(s, newest_first_arrangement(created_keys(s)))
}

/// The records of `s` newest updated first; records updated at the same
/// instant keep their order.
pub open spec fn by_update(s: Seq<TodoView>) -> Seq<TodoView> {
    arranged(s, newest_first_arrangement(updated_keys(s)))
}

/// What a listing shows the user `user_id`: the records of that user,
/// newest created first.
pub open spec fn listing(s: Seq<TodoView>, user_id: Seq<char>) -> Seq<TodoView> {
    by_creation(s.filter(owned(user_id)))
}

/// What a synchronisation answers the user `user_id`: the records of that
/// user that were updated later than `last_sync`, or all of them where
/// there is no `last_sync`, newest updated first.
pub open spec fn sync_listing(
    s: Seq<TodoView>,
    user_id: Seq<char>,
    last_sync: Option<Timestamp>,
) -> Seq<TodoView> {
    by_update(s.filter(owned_and_changed(user_id, last_sync)))
}

/// `s` after `request` was applied at `now` to the record of the user
/// `user_id` under `id`.
pub open spec fn updated(
    s: Seq<TodoView>,
    user_id: Seq<char>,
    id: Seq<char>,
    request: UpdateTodoRequest,
    now: Timestamp,
) -> Seq<TodoView> {
    s.update(position(s, user_id, id), s[position(s, user_id, id)].patched(request, now))
}

/// `s` without the record of the user `user_id` under `id`.
pub open spec fn deleted(s: Seq<TodoView>, user_id: Seq<char>, id: Seq<char>) -> Seq<TodoView> {
    s.remove(position(s, user_id, id))
}

/// The record that `s` holds for the user `user_id` under `id`, if any.
pub open spec fn stored(s: Seq<TodoView>, user_id: Seq<char>, id: Seq<char>) -> Option<TodoView> {
    if has_key(s, user_id, id) {
        Some(s[position(s, user_id, id)])
    } else {
        None
    }
}

/// `s` after the record `incoming` of a client was merged in for the user
/// `user_id`: a record under a new key is taken as it is; one that is newer
/// than the stored record under its key overwrites it; any other is
/// dropped.
pub open spec fn merged_one(
    s: Seq<TodoView>,
    user_id: Seq<char>,
    incoming: TodoView,
) -> Seq<TodoView> {
    match TodoView::merge_rule(stored(s, user_id, incoming.id), incoming) {
        MergeAction::Insert => s.push(incoming.adopted_by(user_id)),
        MergeAction::Overwrite => s.update(
            position(s, user_id, incoming.id),
            s[position(s, user_id, incoming.id)].overwritten_by(incoming),
        ),
        MergeAction::Discard => s,
    }
}

/// `s` after the records of `batch` were merged in for the user `user_id`,
/// one after the other.
pub open spec fn merged(s: Seq<TodoView>, user_id: Seq<char>, batch: Seq<TodoView>) -> Seq<TodoView>
    decreases batch.len(),
{
    if batch.len() == 0 {
        s
    } else {
        merged_one(merged(s, user_id, batch.drop_last()), user_id, batch.last())
    }
}

/// Where keys are unique, the record under a key has one position.
pub proof fn lemma_position(s: Seq<TodoView>, user_id: Seq<char>, id: Seq<char>, i: int)
    requires
        unique_keys(s),
        is_at(s, user_id, id, i),
    ensures
        has_key(s, user_id, id),
        position(s, user_id, id) == i,
{
}

/// The table: the rows in the order in which they came in. No two of them
/// have both the owner and the identifier in common.
pub struct TodoTable {
    rows: Vec<Todo>,
}

impl View for TodoTable {
    type V = Seq<TodoView>;

    closed spec fn view(&self) -> Seq<TodoView> {
        record_views(self.rows@)
    }
}

impl TodoTable {
    #[verifier::type_invariant]
    spec fn keys_are_unique(self) -> bool {
        unique_keys(record_views(self.rows@))
    }

    /// An empty table.
    pub fn new() -> (table: TodoTable)
        ensures
            table@ == Seq::<TodoView>::empty(),
    {
        let table = TodoTable { rows: Vec::new() };
        assert(table@ =~= Seq::<TodoView>::empty());
        table
    }

    /// The rows of the table, as they are stored.
    pub fn rows(&self) -> (rows: &Vec<Todo>)
        ensures
            record_views(rows@) == self@,
            unique_keys(self@),
    {
        proof {
            use_type_invariant(self);
        }
        &self.rows
    }

    /// Hands out the rows and leaves the table empty.
    pub(crate) fn take_rows(&mut self) -> (rows: Vec<Todo>)
        ensures
            record_views(rows@) == old(self)@,
            unique_keys(record_views(rows@)),
            final(self)@ == Seq::<TodoView>::empty(),
    {
        proof {
            use_type_invariant(&*self);
        }
        let mut rows: Vec<Todo> = Vec::new();
        core::mem::swap(&mut self.rows, &mut rows);
        assert(self@ =~= Seq::<TodoView>::empty());
        rows
    }

    /// Puts `rows` in the place of what the table holds.
    pub(crate) fn put_rows(&mut self, rows: Vec<Todo>)
        requires
            unique_keys(record_views(rows@)),
        ensures
            final(self)@ == record_views(rows@),
    {
        self.rows = rows;
    }
}

/// The first position at which the records hold one of the user `user_id`
/// under `id`.
pub fn find_by_key(records: &Vec<Todo>, user_id: &String, id: &String) -> (found: Option<usize>)
    ensures
        match found {
            Some(i) => is_at(record_views(records@), user_id@, id@, i as int) && forall|j: int|
                0 <= j < i ==> !is_at(record_views(records@), user_id@, id@, j),
            None => !has_key(record_views(records@), user_id@, id@),
        },
{
    let ghost s = record_views(records@);
    let mut i: usize = 0;
    while i < records.len()
        invariant
            i <= records.len(),
            s == record_views(records@),
            forall|j: int|
                0 <= j < i ==> !((#[trigger] s[j]).user_id == user_id@ && s[j].id == id@),
        decreases records.len() - i,
    {
        if records[i].user_id == *user_id && records[i].id == *id {
            return Some(i);
        }
        i += 1;
    }
    None
}

/// The records in the order that the timestamps `keys` give them, newest
/// first.
fn arrange_newest_first(records: &Vec<Todo>, keys: &Vec<Timestamp>) -> (listed: Vec<Todo>)
    requires
        keys.len() == records.len(),
    ensures
        record_views(listed@) == arranged(record_views(records@), newest_first_arrangement(keys@)),
{
    let order = newest_first_order(keys);
    assert forall|j: int| 0 <= j < order.len() implies (#[trigger] order[j]) < records.len() by {
        assert(positions(order@)[j] == order[j]);
    }
    let mut listed: Vec<Todo> = Vec::new();
    let mut i: usize = 0;
    while i < order.len()
        invariant
            i <= order.len(),
            listed.len() == i,
            forall|j: int| 0 <= j < order.len() ==> (#[trigger] order[j]) < records.len(),
            forall|j: int| 0 <= j < i ==> (#[trigger] listed[j]) == records[order[j] as int],
        decreases order.len() - i,
    {
        listed.push(records[order[i]].clone());
        i += 1;
    }
    assert(record_views(listed@) =~= arranged(record_views(records@), positions(order@)));
    listed
}

/// The records newest created first; records created at the same instant
/// keep their order.
pub fn newest_created_first(records: &Vec<Todo>) -> (listed: Vec<Todo>)
    ensures
        record_views(listed@) == by_creation(record_views(records@)),
{
    let mut keys: Vec<Timestamp> = Vec::new();
    let mut i: usize = 0;
    while i < records.len()
        invariant
            i <= records.len(),
            keys.len() == i,
            forall|j: int| 0 <= j < i ==> (#[trigger] keys[j]) == records[j].created_at,
        decreases records.len() - i,
    {
        keys.push(records[i].created_at);
        i += 1;
    }
    assert(keys@ =~= created_keys(record_views(records@)));
    arrange_newest_first(records, &keys)
}

/// The records newest updated first; records updated at the same instant
/// keep their order.
pub fn newest_updated_first(records: &Vec<Todo>) -> (listed: Vec<Todo>)
    ensures
        record_views(listed@) == by_update(record_views(records@)),
{
    let mut keys: Vec<Timestamp> = Vec::new();
    let mut i: usize = 0;
    while i < records.len()
        invariant
            i <= records.len(),
            keys.len() == i,
            forall|j: int| 0 <= j < i ==> (#[trigger] keys[j]) == records[j].updated_at,
        decreases records.len() - i,
    {
        keys.push(records[i].updated_at);
        i += 1;
    }
    assert(keys@ =~= updated_keys(record_views(records@)));
    arrange_newest_first(records, &keys)
}

/// The records of the user `user_id`, in their order.
pub fn owned_records(records: &Vec<Todo>, user_id: &String) -> (kept: Vec<Todo>)
    ensures
        record_views(kept@) == record_views(records@).filter(owned(user_id@)),
{
    let ghost s = record_views(records@);
    let mut kept: Vec<Todo> = Vec::new();
    let mut i: usize = 0;
    assert(s.take(0).filter(owned(user_id@)) =~= Seq::<TodoView>::empty());
    while i < records.len()
        invariant
            i <= records.len(),
            s == record_views(records@),
            record_views(kept@) == s.take(i as int).filter(owned(user_id@)),
        decreases records.len() - i,
    {
        proof {
            lemma_filter_next(s, owned(user_id@), i as int);
        }
        if records[i].user_id == *user_id {
            kept.push(records[i].clone());
        }
        i += 1;
        assert(record_views(kept@) =~= s.take(i as int).filter(owned(user_id@)));
    }
    assert(s.take(records.len() as int) =~= s);
    kept
}

/// The records of the user `user_id` that were updated later than
/// `last_sync`, or all records of that user where there is no `last_sync`,
/// in their order.
pub fn changed_records(
    records: &Vec<Todo>,
    user_id: &String,
    last_sync: Option<Timestamp>,
) -> (kept: Vec<Todo>)
    ensures
        record_views(kept@) == record_views(records@).filter(
            owned_and_changed(user_id@, last_sync),
        ),
{
    let ghost s = record_views(records@);
    let ghost keep = owned_and_changed(user_id@, last_sync);
    let mut kept: Vec<Todo> = Vec::new();
    let mut i: usize = 0;
    assert(s.take(0).filter(keep) =~= Seq::<TodoView>::empty());
    while i < records.len()
        invariant
            i <= records.len(),
            s == record_views(records@),
            keep == owned_and_changed(user_id@, last_sync),
            record_views(kept@) == s.take(i as int).filter(keep),
        decreases records.len() - i,
    {
        proof {
            lemma_filter_next(s, keep, i as int);
        }
        let changed = match last_sync {
            Some(since) => records[i].updated_at.is_after(&since),
            None => true,
        };
        if records[i].user_id == *user_id && changed {
            kept.push(records[i].clone());
        }
        i += 1;
        assert(record_views(kept@) =~= s.take(i as int).filter(keep));
    }
    assert(s.take(records.len() as int) =~= s);
    kept
}

} // verus!
