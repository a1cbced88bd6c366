//! Laws of the merge and of the listings of the synchronisation service,
//! over the model of the table.

use crate::order::{
    comes_first, lemma_arranged_holds_the_same, lemma_newest_first_exists, newest_first_arrangement,
};
use crate::request::{CreateTodoRequest, UpdateTodoRequest};
use crate::seqs::{before_removal, lemma_filter_holds, lemma_removal};
use crate::server::models::TodoView;
use crate::server::table::{
    all_valid, by_creation, by_update, created_keys, deleted, has_key, is_at, lemma_position,
    listing, merged, merged_one, owned, owned_and_changed, position, sync_listing, unique_keys,
    updated, updated_keys,
};
use crate::time::Timestamp;
use vstd::prelude::*;

verus! {

/// `r` holds, at each position of `s`, a record under the same key and
/// with the same time of creation, that was not updated earlier than the
/// one that `s` holds there.
pub open spec fn extends(s: Seq<TodoView>, r: Seq<TodoView>) -> bool {
    &&& s.len() <= r.len()
    &&& forall|i: int|
        0 <= i < s.len() ==> {
            &&& (#[trigger] r[i]).user_id == s[i].user_id
            &&& r[i].id == s[i].id
            &&& r[i].created_at == s[i].created_at
            &&& r[i].updated_at.not_before(s[i].updated_at)
        }
}

/// `s` holds, for the user `user_id` and under the identifier of
/// `incoming`, a record that was not updated earlier than `incoming`.
pub open spec fn covers(s: Seq<TodoView>, user_id: Seq<char>, incoming: TodoView) -> bool {
    exists|i: int|
        #![trigger is_at(s, user_id, incoming.id, i)]
        is_at(s, user_id, incoming.id, i) && s[i].updated_at.not_before(incoming.updated_at)
}

/// A merge of one record moves no stored record, changes neither its key
/// nor its time of creation, sets no time of update back, and leaves the
/// table with a record under the incoming key that is at least as new as
/// the incoming one.
pub proof fn lemma_merged_one_extends(s: Seq<TodoView>, user_id: Seq<char>, incoming: TodoView)
    requires
        unique_keys(s),
    ensures
        extends(s, merged_one(s, user_id, incoming)),
        covers(merged_one(s, user_id, incoming), user_id, incoming),
{
    let r = merged_one(s, user_id, incoming);
    if has_key(s, user_id, incoming.id) {
        assert(is_at(r, user_id, incoming.id, position(s, user_id, incoming.id)));
    } else {
        assert(is_at(r, user_id, incoming.id, s.len() as int));
    }
}

/// A record that the table covers is dropped by the merge.
pub proof fn lemma_covered_is_dropped(s: Seq<TodoView>, user_id: Seq<char>, incoming: TodoView)
    requires
        unique_keys(s),
        covers(s, user_id, incoming),
    ensures
        merged_one(s, user_id, incoming) == s,
{
    let at = choose|i: int|
        #![trigger is_at(s, user_id, incoming.id, i)]
        is_at(s, user_id, incoming.id, i) && s[i].updated_at.not_before(incoming.updated_at);
    lemma_position(s, user_id, incoming.id, at);
}

/// What a table covers, every table that extends it covers too.
pub proof fn lemma_extension_covers(
    s: Seq<TodoView>,
    r: Seq<TodoView>,
    user_id: Seq<char>,
    incoming: TodoView,
)
    requires
        covers(s, user_id, incoming),
        extends(s, r),
    ensures
        covers(r, user_id, incoming),
{
    let at = choose|i: int|
        #![trigger is_at(s, user_id, incoming.id, i)]
        is_at(s, user_id, incoming.id, i) && s[i].updated_at.not_before(incoming.updated_at);
    assert(is_at(r, user_id, incoming.id, at));
}

/// A merge of a batch keeps keys unique, moves no stored record, changes
/// neither its key nor its time of creation, sets no time of update back,
/// and leaves a table that covers every record of the batch.
pub proof fn lemma_merged_extends(s: Seq<TodoView>, user_id: Seq<char>, batch: Seq<TodoView>)
    requires
        unique_keys(s),
    ensures
        unique_keys(merged(s, user_id, batch)),
        extends(s, merged(s, user_id, batch)),
        forall|k: int|
            #![trigger batch[k]]
            0 <= k < batch.len() ==> covers(merged(s, user_id, batch), user_id, batch[k]),
    decreases batch.len(),
{
    if batch.len() > 0 {
        let earlier = batch.drop_last();
        let mid = merged(s, user_id, earlier);
        let r = merged(s, user_id, batch);
        lemma_merged_extends(s, user_id, earlier);
        lemma_merged_one_extends(mid, user_id, batch.last());
        assert forall|k: int| #![trigger batch[k]] 0 <= k < batch.len() implies covers(
            r,
            user_id,
            batch[k],
        ) by {
            if k < earlier.len() {
                assert(covers(mid, user_id, earlier[k]));
                lemma_extension_covers(mid, r, user_id, batch[k]);
            }
        }
    }
}

/// A batch of which the table covers every record leaves the table as it
/// is.
pub proof fn lemma_covered_batch_is_dropped(
    s: Seq<TodoView>,
    user_id: Seq<char>,
    batch: Seq<TodoView>,
)
    requires
        unique_keys(s),
        forall|k: int| 0 <= k < batch.len() ==> covers(s, user_id, #[trigger] batch[k]),
    ensures
        merged(s, user_id, batch) == s,
    decreases batch.len(),
{
    if batch.len() > 0 {
        let earlier = batch.drop_last();
        assert forall|k: int| 0 <= k < earlier.len() implies covers(
            s,
            user_id,
            #[trigger] earlier[k],
        ) by {
            assert(earlier[k] == batch[k]);
        }
        lemma_covered_batch_is_dropped(s, user_id, earlier);
        assert(covers(s, user_id, batch[batch.len() - 1]));
        lemma_covered_is_dropped(s, user_id, batch.last());
    }
}

/// Merging the same batch a second time changes nothing: the table after
/// the second merge is the table after the first.
pub proof fn law_merge_is_idempotent(s: Seq<TodoView>, user_id: Seq<char>, batch: Seq<TodoView>)
    requires
        unique_keys(s),
    ensures
        merged(merged(s, user_id, batch), user_id, batch) == merged(s, user_id, batch),
{
    lemma_merged_extends(s, user_id, batch);
    lemma_covered_batch_is_dropped(merged(s, user_id, batch), user_id, batch);
}

/// A batch of one record is merged as that record is.
pub proof fn lemma_merged_single(s: Seq<TodoView>, user_id: Seq<char>, incoming: TodoView)
    ensures
        merged(s, user_id, seq![incoming]) == merged_one(s, user_id, incoming),
{
    let batch = seq![incoming];
    assert(batch.drop_last() =~= Seq::<TodoView>::empty());
    assert(merged(s, user_id, batch.drop_last()) == s);
    assert(batch.last() == incoming);
}

/// The stored record wins a tie: an incoming record that was updated at
/// the same instant as the stored record under its key, or earlier than
/// it, leaves the table as it is.
pub proof fn law_merge_tie_keeps_the_stored(
    s: Seq<TodoView>,
    user_id: Seq<char>,
    incoming: TodoView,
    at: int,
)
    requires
        unique_keys(s),
        is_at(s, user_id, incoming.id, at),
        !incoming.updated_at.after(s[at].updated_at),
    ensures
        merged_one(s, user_id, incoming) == s,
        merged(s, user_id, seq![incoming]) == s,
{
    lemma_position(s, user_id, incoming.id, at);
    lemma_merged_single(s, user_id, incoming);
}

/// A newer incoming record overwrites the stored one: the record under its
/// key takes the title, the description, the completion, the priority, the
/// time of update and the due date of the incoming record, and keeps its
/// identifier, its owner and its time of creation. No other record changes.
pub proof fn law_merge_newer_overwrites(
    s: Seq<TodoView>,
    user_id: Seq<char>,
    incoming: TodoView,
    at: int,
)
    requires
        unique_keys(s),
        is_at(s, user_id, incoming.id, at),
        incoming.updated_at.after(s[at].updated_at),
    ensures
        merged_one(s, user_id, incoming) == s.update(
            at,
            (TodoView {
                id: s[at].id,
                user_id: s[at].user_id,
                created_at: s[at].created_at,
                ..incoming
            }),
        ),
        merged(s, user_id, seq![incoming]) == merged_one(s, user_id, incoming),
{
    lemma_position(s, user_id, incoming.id, at);
    lemma_merged_single(s, user_id, incoming);
}

/// A record under a key that the table does not hold is taken as the
/// client sent it, for the user in whose name it came.
pub proof fn law_merge_takes_the_unknown(s: Seq<TodoView>, user_id: Seq<char>, incoming: TodoView)
    requires
        !has_key(s, user_id, incoming.id),
    ensures
        merged_one(s, user_id, incoming) == s.push((TodoView { user_id, ..incoming })),
        merged(s, user_id, seq![incoming]) == merged_one(s, user_id, incoming),
{
    lemma_merged_single(s, user_id, incoming);
}

/// A merge of valid records into valid records leaves every record valid:
/// no title empty, no record updated before it was created.
pub proof fn law_merge_keeps_records_valid(
    s: Seq<TodoView>,
    user_id: Seq<char>,
    batch: Seq<TodoView>,
)
    requires
        all_valid(s),
        all_valid(batch),
    ensures
        all_valid(merged(s, user_id, batch)),
    decreases batch.len(),
{
    if batch.len() > 0 {
        let earlier = batch.drop_last();
        assert forall|k: int| 0 <= k < earlier.len() implies (#[trigger] earlier[k]).valid() by {
            assert(batch[k].valid());
        }
        law_merge_keeps_records_valid(s, user_id, earlier);
        assert(batch[batch.len() - 1].valid());
    }
}

/// A listing holds the records of the user, each as it is stored and none
/// besides them, no record created later behind one created earlier.
pub proof fn law_listing_holds_the_users_records(s: Seq<TodoView>, user_id: Seq<char>)
    ensures
        forall|t: TodoView|
            #![trigger listing(s, user_id).contains(t)]
            listing(s, user_id).contains(t) <==> s.contains(t) && t.user_id == user_id,
        forall|i: int, j: int|
            #![trigger listing(s, user_id)[i], listing(s, user_id)[j]]
            0 <= i < j < listing(s, user_id).len() ==> listing(s, user_id)[i].created_at.not_before(
                listing(s, user_id)[j].created_at,
            ),
{
    let mine = s.filter(owned(user_id));
    let keys = created_keys(mine);
    let p = newest_first_arrangement(keys);
    let listed = listing(s, user_id);
    lemma_filter_holds(s, owned(user_id));
    lemma_newest_first_exists(keys);
    lemma_arranged_holds_the_same(mine, p);
    assert forall|t: TodoView| #![trigger listed.contains(t)] listed.contains(t) <==> s.contains(t)
        && t.user_id == user_id by {
        assert(by_creation(mine).contains(t) <==> mine.contains(t));
    }
    assert forall|i: int, j: int| #![trigger listed[i], listed[j]] 0 <= i < j < listed.len() implies
        listed[i].created_at.not_before(listed[j].created_at) by {
        assert(comes_first(keys, p[i], p[j]));
    }
}

/// A record that was just created, under a key that the table did not
/// hold, is listed for its user, and listed once: the listing shows one
/// record under its identifier, and that record is the created one, not
/// completed and with one instant as its time of creation and of update.
pub proof fn law_created_is_listed(
    s: Seq<TodoView>,
    user_id: Seq<char>,
    id: Seq<char>,
    now: Timestamp,
    request: CreateTodoRequest,
)
    requires
        !has_key(s, user_id, id),
    ensures
        ({
            let created = TodoView::requested(id, user_id, now, request);
            let listed = listing(s.push(created), user_id);
            &&& created.created_at == created.updated_at
            &&& !created.completed
            &&& listed.contains(created)
            &&& forall|i: int|
                0 <= i < listed.len() && (#[trigger] listed[i]).id == id ==> listed[i] == created
        }),
{
    let created = TodoView::requested(id, user_id, now, request);
    let grown = s.push(created);
    let listed = listing(grown, user_id);
    law_listing_holds_the_users_records(grown, user_id);
    assert(grown[s.len() as int] == created);
    assert(grown.contains(created));
    assert(listed.contains(created));
    assert forall|i: int| 0 <= i < listed.len() && (#[trigger] listed[i]).id == id implies listed[i]
        == created by {
        assert(listed.contains(listed[i]));
        assert(grown.contains(listed[i]));
        let k = choose|k: int| 0 <= k < grown.len() && grown[k] == listed[i];
        if k < s.len() {
            assert(s[k].user_id == user_id && s[k].id == id);
        }
    }
}

/// An update leaves every record in its place, under its key and with its
/// time of creation, and changes no record but the one it is for. An
/// update that names no field changes `updated_at` and nothing else; where
/// it is later than the last one, `updated_at` advances.
pub proof fn law_update_keeps_identity(
    s: Seq<TodoView>,
    user_id: Seq<char>,
    id: Seq<char>,
    request: UpdateTodoRequest,
    now: Timestamp,
)
    requires
        has_key(s, user_id, id),
    ensures
        ({
            let at = position(s, user_id, id);
            let after = updated(s, user_id, id, request, now);
            &&& after.len() == s.len()
            &&& forall|i: int|
                0 <= i < s.len() ==> (#[trigger] after[i]).id == s[i].id && after[i].user_id
                    == s[i].user_id && after[i].created_at == s[i].created_at
            &&& forall|i: int| 0 <= i < s.len() && i != at ==> #[trigger] after[i] == s[i]
            &&& request.is_empty() ==> after == s.update(
                at,
                (TodoView { updated_at: now, ..s[at] }),
            )
            &&& now.after(s[at].updated_at) ==> after[at].updated_at.after(s[at].updated_at)
        }),
{
}

/// After a record was deleted, the listing of its user shows no record
/// under its identifier; every other record is listed as before, for
/// every user.
pub proof fn law_deleted_is_not_listed(
    s: Seq<TodoView>,
    user_id: Seq<char>,
    id: Seq<char>,
    other: Seq<char>,
)
    requires
        unique_keys(s),
        has_key(s, user_id, id),
    ensures
        unique_keys(deleted(s, user_id, id)),
        !has_key(deleted(s, user_id, id), user_id, id),
        forall|t: TodoView|
            #![trigger listing(deleted(s, user_id, id), other).contains(t)]
            listing(deleted(s, user_id, id), other).contains(t) <==> listing(s, other).contains(t)
                && !(t.user_id == user_id && t.id == id),
{
    let at = position(s, user_id, id);
    let rest = deleted(s, user_id, id);
    lemma_removal(s, at);
    assert forall|i: int| 0 <= i < rest.len() implies !((#[trigger] rest[i]).user_id == user_id
        && rest[i].id == id) by {
        if i < at {
            assert(!(s[i].user_id == s[at].user_id && s[i].id == s[at].id));
        } else {
            assert(!(s[at].user_id == s[i + 1].user_id && s[at].id == s[i + 1].id));
        }
    }
    assert forall|i: int, j: int| 0 <= i < j < rest.len() implies !((#[trigger] rest[i]).user_id
        == (#[trigger] rest[j]).user_id && rest[i].id == rest[j].id) by {
        let a: int = before_removal(i, at);
        let b: int = before_removal(j, at);
        assert(!(s[a].user_id == s[b].user_id && s[a].id == s[b].id));
    }
    law_listing_holds_the_users_records(s, other);
    law_listing_holds_the_users_records(rest, other);
    assert forall|t: TodoView| #![trigger listing(rest, other).contains(t)] listing(
        rest,
        other,
    ).contains(t) <==> listing(s, other).contains(t) && !(t.user_id == user_id && t.id == id) by {
        if listing(rest, other).contains(t) {
            assert(rest.contains(t));
            let i = choose|i: int| 0 <= i < rest.len() && rest[i] == t;
            assert(!(rest[i].user_id == user_id && rest[i].id == id));
            assert(s.contains(t));
        }
        if listing(s, other).contains(t) && !(t.user_id == user_id && t.id == id) {
            let k = choose|k: int| 0 <= k < s.len() && s[k] == t;
            assert(k != at);
            assert(rest.contains(t));
        }
    }
}

/// The answer to a synchronisation holds the records of the user that
/// were updated later than the last synchronisation, or all records of the
/// user where there was none; each as it is stored and none besides them,
/// no record updated later behind one updated earlier.
pub proof fn law_sync_answers_what_changed(
    s: Seq<TodoView>,
    user_id: Seq<char>,
    last_sync: Option<Timestamp>,
)
    ensures
        forall|t: TodoView|
            #![trigger sync_listing(s, user_id, last_sync).contains(t)]
            sync_listing(s, user_id, last_sync).contains(t) <==> s.contains(t) && t.user_id
                == user_id && (last_sync matches Some(since) ==> t.updated_at.after(since)),
        forall|i: int, j: int|
            #![trigger sync_listing(s, user_id, last_sync)[i], sync_listing(s, user_id, last_sync)[j]]
            0 <= i < j < sync_listing(s, user_id, last_sync).len() ==> sync_listing(
                s,
                user_id,
                last_sync,
            )[i].updated_at.not_before(sync_listing(s, user_id, last_sync)[j].updated_at),
{
    let keep = owned_and_changed(user_id, last_sync);
    let changed = s.filter(keep);
    let keys = updated_keys(changed);
    let p = newest_first_arrangement(keys);
    let out = sync_listing(s, user_id, last_sync);
    lemma_filter_holds(s, keep);
    lemma_newest_first_exists(keys);
    lemma_arranged_holds_the_same(changed, p);
    assert forall|t: TodoView| #![trigger out.contains(t)] out.contains(t) <==> s.contains(t)
        && t.user_id == user_id && (last_sync matches Some(since) ==> t.updated_at.after(
        since,
    )) by {
        assert(by_update(changed).contains(t) <==> changed.contains(t));
    }
    assert forall|i: int, j: int| #![trigger out[i], out[j]] 0 <= i < j < out.len() implies
        out[i].updated_at.not_before(out[j].updated_at) by {
        assert(comes_first(keys, p[i], p[j]));
    }
}

/// Where no record of the user was updated later than `since`, a
/// synchronisation that gives `since` as its last one is answered with no
/// record.
pub proof fn law_sync_after_the_last_change_is_empty(
    s: Seq<TodoView>,
    user_id: Seq<char>,
    since: Timestamp,
)
    requires
        forall|i: int|
            0 <= i < s.len() && (#[trigger] s[i]).user_id == user_id ==> !s[i].updated_at.after(
                since,
            ),
    ensures
        sync_listing(s, user_id, Some(since)).len() == 0,
{
    let out = sync_listing(s, user_id, Some(since));
    law_sync_answers_what_changed(s, user_id, Some(since));
    if out.len() > 0 {
        let t = out[0];
        assert(out.contains(t));
        assert(s.contains(t));
        let k = choose|k: int| 0 <= k < s.len() && s[k] == t;
        assert(!s[k].updated_at.after(since));
    }
}

} // verus!
