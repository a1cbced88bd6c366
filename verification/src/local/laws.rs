//! Laws of the local store, over the model of its operations.

use crate::local::commands::{
    created_keys, deleted, has_id, lemma_open_only, lemma_position, listing, open_only, position,
    toggled, unique_ids, updated,
};
use crate::local::models::{CreateTodoRequest, TodoView, UpdateTodoRequest};
use crate::order::{
    comes_first, lemma_arranged_holds_the_same, lemma_newest_first_exists,
    newest_first_arrangement,
};
use crate::seqs::{before_removal, lemma_removal};
use crate::time::Timestamp;
use vstd::prelude::*;

verus! {

/// A listing holds the records of the store, each as it is stored and none
/// besides them, no record created later behind one created earlier.
pub proof fn law_listing_holds_the_store(s: Seq<TodoView>)
    ensures
        listing(s).len() == s.len(),
        forall|t: TodoView|
            #![trigger listing(s).contains(t)]
            listing(s).contains(t) <==> s.contains(t),
        forall|id: Seq<char>|
            #![trigger has_id(listing(s), id)]
            has_id(listing(s), id) <==> has_id(s, id),
        forall|i: int, j: int|
            #![trigger listing(s)[i], listing(s)[j]]
            0 <= i < j < s.len() ==> listing(s)[i].created_at.not_before(listing(s)[j].created_at),
        unique_ids(s) ==> unique_ids(listing(s)),
{
    let keys = created_keys(s);
    let p = newest_first_arrangement(keys);
    let listed = listing(s);
    lemma_newest_first_exists(keys);
    lemma_arranged_holds_the_same(s, p);
    assert forall|i: int, j: int| #![trigger listed[i], listed[j]] 0 <= i < j < s.len() implies
        listed[i].created_at.not_before(listed[j].created_at) by {
        assert(comes_first(keys, p[i], p[j]));
    }
    if unique_ids(s) {
        assert forall|i: int, j: int| 0 <= i < j < listed.len() implies (#[trigger] listed[i]).id
            != (#[trigger] listed[j]).id by {
            assert(p[i] != p[j]);
            if p[i] < p[j] {
                assert(s[p[i]].id != s[p[j]].id);
            } else {
                assert(s[p[j]].id != s[p[i]].id);
            }
        }
    }
    assert forall|id: Seq<char>| #![trigger has_id(listed, id)] has_id(listed, id) <==> has_id(
        s,
        id,
    ) by {
        if has_id(listed, id) {
            assert(s[p[position(listed, id)]].id == id);
        }
        if has_id(s, id) {
            let t = s[position(s, id)];
            assert(s.contains(t));
            assert(listed.contains(t));
            let i = choose|i: int| 0 <= i < listed.len() && listed[i] == t;
            assert(listed[i].id == id);
        }
    }
}

/// A record that was just created, under an identifier that the store did
/// not hold, is listed, and listed once: a listing shows one record under
/// its identifier, and that record is the created one, not completed and
/// with one instant as its time of creation and of update.
pub proof fn law_created_is_listed(
    s: Seq<TodoView>,
    id: Seq<char>,
    now: Timestamp,
    request: CreateTodoRequest,
)
    requires
        unique_ids(s),
        !has_id(s, id),
    ensures
        ({
            let created = TodoView::requested(id, now, request);
            let listed = listing(s.push(created));
            &&& created.created_at == created.updated_at
            &&& !created.completed
            &&& unique_ids(s.push(created))
            &&& listed.len() == s.len() + 1
            &&& listed.contains(created)
            &&& forall|i: int|
                0 <= i < listed.len() && (#[trigger] listed[i]).id == id ==> listed[i] == created
        }),
{
    let created = TodoView::requested(id, now, request);
    let grown = s.push(created);
    let listed = listing(grown);
    assert forall|i: int, j: int| 0 <= i < j < grown.len() implies (#[trigger] grown[i]).id
        != (#[trigger] grown[j]).id by {
        if j < s.len() {
            assert(s[i].id != s[j].id);
        } else {
            assert(s[i].id != id);
        }
    }
    law_listing_holds_the_store(grown);
    assert(grown[s.len() as int] == created);
    assert(grown.contains(created));
    assert(listed.contains(created));
    assert forall|i: int| 0 <= i < listed.len() && (#[trigger] listed[i]).id == id implies listed[i]
        == created by {
        assert(listed.contains(listed[i]));
        assert(grown.contains(listed[i]));
        let k = choose|k: int| 0 <= k < grown.len() && grown[k] == listed[i];
        if k < s.len() {
            assert(s[k].id == id);
        }
    }
}

/// An update and a toggle leave every record in its place, under its
/// identifier and with its time of creation, and change no record but the
/// one they are for.
pub proof fn law_identity_is_kept(
    s: Seq<TodoView>,
    id: Seq<char>,
    request: UpdateTodoRequest,
    now: Timestamp,
)
    requires
        has_id(s, id),
    ensures
        ({
            let after = updated(s, id, request, now);
            &&& after.len() == s.len()
            &&& forall|i: int|
                0 <= i < s.len() ==> (#[trigger] after[i]).id == s[i].id && after[i].created_at
                    == s[i].created_at
            &&& forall|i: int|
                0 <= i < s.len() && i != position(s, id) ==> #[trigger] after[i] == s[i]
        }),
        ({
            let after = toggled(s, id, now);
            &&& after.len() == s.len()
            &&& forall|i: int|
                0 <= i < s.len() ==> (#[trigger] after[i]).id == s[i].id && after[i].created_at
                    == s[i].created_at
            &&& forall|i: int|
                0 <= i < s.len() && i != position(s, id) ==> #[trigger] after[i] == s[i]
        }),
{
}

/// An update that names no field changes `updated_at` and nothing else.
/// Where the update is later than the last one, `updated_at` advances.
pub proof fn law_empty_update_only_stamps(
    s: Seq<TodoView>,
    id: Seq<char>,
    request: UpdateTodoRequest,
    now: Timestamp,
)
    requires
        has_id(s, id),
        request.is_empty(),
    ensures
        ({
            let at = position(s, id);
            let after = updated(s, id, request, now);
            &&& after == s.update(at, (TodoView { updated_at: now, ..s[at] }))
            &&& now.after(s[at].updated_at) ==> after[at].updated_at.after(s[at].updated_at)
        }),
{
}

/// Toggling a record twice gives it back its completion, and leaves
/// `updated_at` as the only field that differs. Where each toggle is later
/// than the update before it, `updated_at` advances both times.
pub proof fn law_toggle_twice(s: Seq<TodoView>, id: Seq<char>, first: Timestamp, second: Timestamp)
    requires
        unique_ids(s),
        has_id(s, id),
    ensures
        ({
            let at = position(s, id);
            let once = toggled(s, id, first);
            let twice = toggled(once, id, second);
            &&& once[at].completed != s[at].completed
            &&& twice[at].completed == s[at].completed
            &&& twice == s.update(at, (TodoView { updated_at: second, ..s[at] }))
            &&& first.after(s[at].updated_at) ==> once[at].updated_at.after(s[at].updated_at)
            &&& second.after(first) ==> twice[at].updated_at.after(once[at].updated_at)
        }),
{
    let at = position(s, id);
    let once = toggled(s, id, first);
    assert forall|i: int, j: int| 0 <= i < j < once.len() implies (#[trigger] once[i]).id
        != (#[trigger] once[j]).id by {
        assert(s[i].id != s[j].id);
    }
    lemma_position(once, id, at);
    assert(toggled(once, id, second) =~= s.update(at, (TodoView { updated_at: second, ..s[at] })));
}

/// After a record was deleted, no listing shows a record under its
/// identifier, and every other record is listed as before.
pub proof fn law_deleted_is_not_listed(s: Seq<TodoView>, id: Seq<char>)
    requires
        unique_ids(s),
        has_id(s, id),
    ensures
        unique_ids(deleted(s, id)),
        !has_id(deleted(s, id), id),
        !has_id(listing(deleted(s, id)), id),
        forall|t: TodoView|
            #![trigger listing(deleted(s, id)).contains(t)]
            listing(deleted(s, id)).contains(t) <==> s.contains(t) && t.id != id,
{
    let at = position(s, id);
    let rest = deleted(s, id);
    lemma_removal(s, at);
    assert forall|i: int| 0 <= i < rest.len() implies (#[trigger] rest[i]).id != id by {
        if i < at {
            assert(s[i].id != s[at].id);
        } else {
            assert(s[at].id != s[i + 1].id);
        }
    }
    assert forall|i: int, j: int| 0 <= i < j < rest.len() implies (#[trigger] rest[i]).id
        != (#[trigger] rest[j]).id by {
        assert(s[before_removal(i, at)].id != s[before_removal(j, at)].id);
    }
    law_listing_holds_the_store(rest);
    assert forall|t: TodoView| #![trigger listing(rest).contains(t)] listing(rest).contains(t)
        <==> s.contains(t) && t.id != id by {
        if listing(rest).contains(t) {
            assert(rest.contains(t));
            let i = choose|i: int| 0 <= i < rest.len() && rest[i] == t;
            assert(rest[i].id != id);
        }
        if s.contains(t) && t.id != id {
            let k = choose|k: int| 0 <= k < s.len() && s[k] == t;
            assert(k != at);
            assert(rest.contains(t));
        }
    }
}

/// Clearing removes the completed records, all of them and no others: a
/// record that is not completed stays as it is, and is listed as it is.
pub proof fn law_clear_completed(s: Seq<TodoView>)
    ensures
        forall|t: TodoView|
            #![trigger open_only(s).contains(t)]
            open_only(s).contains(t) <==> s.contains(t) && !t.completed,
        forall|t: TodoView|
            #![trigger listing(open_only(s)).contains(t)]
            listing(open_only(s)).contains(t) <==> s.contains(t) && !t.completed,
        unique_ids(s) ==> unique_ids(open_only(s)),
{
    let listed = listing(open_only(s));
    lemma_open_only(s);
    law_listing_holds_the_store(open_only(s));
    assert forall|t: TodoView| #![trigger listed.contains(t)] listed.contains(t) <==> s.contains(t)
        && !t.completed by {
        assert(listed.contains(t) <==> open_only(s).contains(t));
    }
}

} // verus!
