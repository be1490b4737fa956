//! What holds of the store over whole runs of operations.

use vstd::prelude::*;
use crate::codec::candid_decoding;
use crate::record::{FieldsView, StoreError, User, UserView};
use crate::storage::lists_keys;
use crate::store::{
    create_step, decodes_along, delete_step, faithful, issued, lookup, put_step, update_step,
    StoreView,
};

verus! {

/// One operation that changes the store.
pub ghost enum Operation {
    Create { fields: FieldsView, now: u64 },
    Update { id: u64, fields: FieldsView },
    Delete { id: u64 },
}

/// The store after one operation.
pub open spec fn after(s: StoreView, op: Operation) -> StoreView {
    match op {
        Operation::Create { fields, now } => create_step(s, fields, now).0,
        Operation::Update { id, fields } => update_step(s, id, fields).0,
        Operation::Delete { id } => delete_step(s, id).0,
    }
}

/// The store after the operations `ops`, first to last.
pub open spec fn after_all(s: StoreView, ops: Seq<Operation>) -> StoreView
    decreases ops.len(),
{
    if ops.len() == 0 {
        s
    } else {
        after(after_all(s, ops.drop_last()), ops.last())
    }
}

/// No operation rewinds the identifier generator, and none stores a record
/// under an identifier that was not issued.
pub proof fn lemma_step_keeps_order(s: StoreView, op: Operation)
    ensures
        after(s, op).next_id >= s.next_id,
        issued(s) ==> issued(after(s, op)),
{
    let t = after(s, op);
    if issued(s) {
        assert forall|k: u64| #[trigger] t.contents.contains_key(k) implies k < t.next_id by {
            match op {
                Operation::Create { fields, now } => {
                    if k != s.next_id {
                        assert(s.contents.contains_key(k));
                    }
                },
                Operation::Update { id, fields } => {
                    if k != id {
                        assert(s.contents.contains_key(k));
                    } else {
                        assert(s.contents.contains_key(id));
                    }
                },
                Operation::Delete { id } => {
                    assert(s.contents.contains_key(k));
                },
            }
        }
    }
}

/// No run of operations rewinds the identifier generator, and none stores a
/// record under an identifier that was not issued.
pub proof fn lemma_run_keeps_order(s: StoreView, ops: Seq<Operation>)
    ensures
        after_all(s, ops).next_id >= s.next_id,
        issued(s) ==> issued(after_all(s, ops)),
    decreases ops.len(),
{
    if ops.len() > 0 {
        lemma_run_keeps_order(s, ops.drop_last());
        lemma_step_keeps_order(after_all(s, ops.drop_last()), ops.last());
    }
}

/// A created record gets the generator's value as its identifier, and the
/// generator moves on by one: of two creations in a row, the second record's
/// identifier is the first one's plus one.
pub proof fn lemma_create_issues_next(s: StoreView, fields: FieldsView, now: u64)
    requires
        create_step(s, fields, now).1 is Ok,
    ensures
        create_step(s, fields, now).1->Ok_0.id == s.next_id,
        create_step(s, fields, now).0.next_id == s.next_id + 1,
        create_step(s, fields, now).0.contents.contains_key(s.next_id),
{
}

/// Identifiers strictly increase: a record created after another, whatever
/// was created, replaced or deleted in between, has the greater identifier.
pub proof fn lemma_identifiers_increase(
    s: StoreView,
    first: FieldsView,
    first_now: u64,
    between: Seq<Operation>,
    second: FieldsView,
    second_now: u64,
)
    requires
        create_step(s, first, first_now).1 is Ok,
        create_step(after_all(create_step(s, first, first_now).0, between), second, second_now).1 is Ok,
    ensures
        create_step(s, first, first_now).1->Ok_0.id
            < create_step(after_all(create_step(s, first, first_now).0, between), second, second_now).1->Ok_0.id,
{
    lemma_run_keeps_order(create_step(s, first, first_now).0, between);
}

/// An update that succeeds keeps the stored record's identifier and creation
/// time, and sets each other field to the one supplied.
pub proof fn lemma_update_keeps_identity(s: StoreView, id: u64, fields: FieldsView)
    requires
        update_step(s, id, fields).1 is Ok,
    ensures
        lookup(s, id) is Ok,
        update_step(s, id, fields).1->Ok_0 == (UserView {
            id: lookup(s, id)->Ok_0.id,
            name: fields.name,
            email: fields.email,
            phonenumber: fields.phonenumber,
            industry: fields.industry,
            skills: fields.skills,
            joined_date: lookup(s, id)->Ok_0.joined_date,
        }),
        update_step(s, id, fields).0.next_id == s.next_id,
{
}

/// A deleted record is gone, and its identifier is final: no record created
/// later, whatever is created, replaced or deleted in between, gets it.
pub proof fn lemma_delete_is_final(
    s: StoreView,
    id: u64,
    between: Seq<Operation>,
    fields: FieldsView,
    now: u64,
)
    requires
        issued(s),
        delete_step(s, id).1 is Ok,
        create_step(after_all(delete_step(s, id).0, between), fields, now).1 is Ok,
    ensures
        lookup(delete_step(s, id).0, id) == Err::<UserView, StoreError>(StoreError::NotFound),
        create_step(after_all(delete_step(s, id).0, between), fields, now).1->Ok_0.id != id,
{
    assert(s.contents.contains_key(id));
    lemma_run_keeps_order(delete_step(s, id).0, between);
}

/// Reading all records gives them in ascending order of their identifiers,
/// in whatever order they were stored: the records along a listing of the
/// keys, each carrying its own key, have strictly ascending identifiers.
pub proof fn lemma_listing_ascends(s: StoreView, keys: Seq<u64>, users: Seq<User>)
    requires
        faithful(s),
        lists_keys(keys, s.contents),
        decodes_along(keys, users, s.contents),
    ensures
        forall|i: int, j: int| 0 <= i < j < users.len() ==> users[i].id < users[j].id,
{
    assert forall|i: int, j: int| 0 <= i < j < users.len() implies users[i].id < users[j].id by {
        assert(s.contents.contains_key(keys[i]));
        assert(s.contents.contains_key(keys[j]));
        assert(candid_decoding(s.contents[keys[i]]) == Some(users[i]@));
        assert(candid_decoding(s.contents[keys[j]]) == Some(users[j]@));
    }
}

/// Storing a record under an identifier that was issued keeps every stored
/// identifier below the generator's value.
pub proof fn lemma_put_keeps_issued(s: StoreView, key: u64, user: UserView)
    requires
        issued(s),
        key < s.next_id,
    ensures
        issued(put_step(s, key, user).0),
{
    let t = put_step(s, key, user).0;
    assert forall|k: u64| #[trigger] t.contents.contains_key(k) implies k < t.next_id by {
        if k != key {
            assert(s.contents.contains_key(k));
        }
    }
}

} // verus!
