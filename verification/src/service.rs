//! The operations offered to callers: each checks its input, then works on
//! the store.

use vstd::prelude::*;
use crate::codec::candid_decoding;
use crate::record::{DeleteUserPayload, FieldsView, SearchPayload, StoreError, User, UserPayload, UserUpdatePayload, UserView};
use crate::storage::lists_keys;
use crate::store::{create_step, decodes_along, delete_step, faithful, issued, lookup, seen, update_step, RecordStore, StoreView};

verus! {

/// One of the five fields is empty.
pub open spec fn has_empty_field(fields: FieldsView) -> bool {
    fields.email.len() == 0 || fields.name.len() == 0 || fields.industry.len() == 0
        || fields.phonenumber.len() == 0 || fields.skills.len() == 0
}

/// Why the fields are refused, if they are: an empty field first, then an
/// email address without `@`.
pub open spec fn refusal(fields: FieldsView) -> Option<StoreError> {
    if has_empty_field(fields) {
        Some(StoreError::EmptyFields)
    } else if !fields.email.contains('@') {
        Some(StoreError::InvalidFormat)
    } else {
        None
    }
}

/// Some stored value does not decode.
pub open spec fn has_corrupt(s: StoreView) -> bool {
    exists|k: u64| #[trigger] s.contents.contains_key(k) && candid_decoding(s.contents[k]) is None
}

/// Some stored record has the email address `email`.
pub open spec fn email_taken(s: StoreView, email: Seq<char>) -> bool {
    exists|k: u64| #[trigger]
        s.contents.contains_key(k) && candid_decoding(s.contents[k]) is Some
            && candid_decoding(s.contents[k])->Some_0.email == email
}

/// Some stored record has the name `name`.
pub open spec fn name_taken(s: StoreView, name: Seq<char>) -> bool {
    exists|k: u64| #[trigger]
        s.contents.contains_key(k) && candid_decoding(s.contents[k]) is Some
            && candid_decoding(s.contents[k])->Some_0.name == name
}

/// What creating a profile gives: the fields are checked, then email address
/// and name are looked for among the stored records, then the record is
/// created.
pub open spec fn create_profile_step(s: StoreView, fields: FieldsView, now: u64) -> (StoreView, Result<UserView, StoreError>) {
    if refusal(fields) is Some {
        (s, Err(refusal(fields)->Some_0))
    } else if has_corrupt(s) {
        (s, Err(StoreError::Corrupt))
    } else if email_taken(s, fields.email) {
        (s, Err(StoreError::EmailExists))
    } else if name_taken(s, fields.name) {
        (s, Err(StoreError::NameExists))
    } else {
        create_step(s, fields, now)
    }
}

/// What updating a profile gives: the fields are checked, then the record is
/// replaced.
pub open spec fn update_profile_step(s: StoreView, id: u64, fields: FieldsView) -> (StoreView, Result<UserView, StoreError>) {
    if refusal(fields) is Some {
        (s, Err(refusal(fields)->Some_0))
    } else {
        update_step(s, id, fields)
    }
}

/// Whether `text` holds the character `@`.
pub fn has_at_sign(text: &str) -> (found: bool)
    ensures
        found == text@.contains('@'),
{
    let n = text.unicode_len();
    let mut i: usize = 0;
    while i < n
        invariant
            n == text@.len(),
            i <= n,
            forall|j: int| 0 <= j < i ==> text@[j] != '@',
        decreases n - i,
    {
        if text.get_char(i) == '@' {
            return true;
        }
        i += 1;
    }
    false
}

/// Checks the five fields: none is empty, and the email address holds `@`.
pub fn check_fields(name: &String, email: &String, phonenumber: &String, industry: &String, skills: &String) -> (r: Result<(), StoreError>)
    ensures
        r is Err <==> refusal(FieldsView { name: name@, email: email@, phonenumber: phonenumber@, industry: industry@, skills: skills@ }) is Some,
        r is Err ==> Some(r->Err_0) == refusal(FieldsView { name: name@, email: email@, phonenumber: phonenumber@, industry: industry@, skills: skills@ }),
{
    if email.as_str().is_empty() || name.as_str().is_empty() || industry.as_str().is_empty()
        || phonenumber.as_str().is_empty() || skills.as_str().is_empty() {
        return Err(StoreError::EmptyFields);
    }
    if !has_at_sign(email.as_str()) {
        return Err(StoreError::InvalidFormat);
    }
    Ok(())
}

/// Whether one of `users` has the email address `email`.
pub fn any_has_email(users: &Vec<User>, email: &String) -> (found: bool)
    ensures
        found == exists|i: int| 0 <= i < users@.len() && (#[trigger] users@[i]).email@ == email@,
{
    let mut i: usize = 0;
    while i < users.len()
        invariant
            i <= users@.len(),
            forall|j: int| 0 <= j < i ==> (#[trigger] users@[j]).email@ != email@,
        decreases users@.len() - i,
    {
        if users[i].email == *email {
            return true;
        }
        i += 1;
    }
    false
}

/// Whether one of `users` has the name `name`.
pub fn any_has_name(users: &Vec<User>, name: &String) -> (found: bool)
    ensures
        found == exists|i: int| 0 <= i < users@.len() && (#[trigger] users@[i]).name@ == name@,
{
    let mut i: usize = 0;
    while i < users.len()
        invariant
            i <= users@.len(),
            forall|j: int| 0 <= j < i ==> (#[trigger] users@[j]).name@ != name@,
        decreases users@.len() - i,
    {
        if users[i].name == *name {
            return true;
        }
        i += 1;
    }
    false
}

/// Creates a profile from `payload`, stamped with the time `now`.
pub fn create_user_profile(store: &mut RecordStore, payload: UserPayload, now: u64) -> (r: Result<User, StoreError>)
    ensures
        (final(store)@, seen(r)) == create_profile_step(old(store)@, payload@, now),
        r is Ok ==> lookup(final(store)@, r->Ok_0.id) == Ok::<UserView, StoreError>(r->Ok_0@),
        faithful(old(store)@) ==> faithful(final(store)@),
        issued(old(store)@) ==> issued(final(store)@),
        final(store).binding() == old(store).binding(),
{
    match check_fields(&payload.name, &payload.email, &payload.phonenumber, &payload.industry, &payload.skills) {
        Ok(()) => {},
        Err(e) => {
            return Err(e);
        },
    }
    let users = match store.read_all() {
        Ok(users) => users,
        Err(e) => {
            return Err(e);
        },
    };
    let ghost s = store@;
    let ghost keys = choose|keys: Seq<u64>| lists_keys(keys, s.contents) && #[trigger] decodes_along(keys, users@, s.contents);
    proof {
        assert forall|k: u64| #[trigger] s.contents.contains_key(k) implies candid_decoding(s.contents[k]) is Some by {
            assert(keys.contains(k));
            let j = choose|j: int| 0 <= j < keys.len() && keys[j] == k;
            assert(candid_decoding(s.contents[keys[j]]) == Some(users@[j]@));
        }
    }
    let email_exists = any_has_email(&users, &payload.email);
    proof {
        if email_exists {
            let i = choose|i: int| 0 <= i < users@.len() && (#[trigger] users@[i]).email@ == payload.email@;
            assert(s.contents.contains_key(keys[i]));
            assert(candid_decoding(s.contents[keys[i]]) == Some(users@[i]@));
        } else {
            assert forall|k: u64| #[trigger] s.contents.contains_key(k) implies candid_decoding(s.contents[k])->Some_0.email != payload.email@ by {
                assert(keys.contains(k));
                let j = choose|j: int| 0 <= j < keys.len() && keys[j] == k;
                assert(candid_decoding(s.contents[keys[j]]) == Some(users@[j]@));
            }
        }
    }
    if email_exists {
        return Err(StoreError::EmailExists);
    }
    let name_exists = any_has_name(&users, &payload.name);
    proof {
        if name_exists {
            let i = choose|i: int| 0 <= i < users@.len() && (#[trigger] users@[i]).name@ == payload.name@;
            assert(s.contents.contains_key(keys[i]));
            assert(candid_decoding(s.contents[keys[i]]) == Some(users@[i]@));
        } else {
            assert forall|k: u64| #[trigger] s.contents.contains_key(k) implies candid_decoding(s.contents[k])->Some_0.name != payload.name@ by {
                assert(keys.contains(k));
                let j = choose|j: int| 0 <= j < keys.len() && keys[j] == k;
                assert(candid_decoding(s.contents[keys[j]]) == Some(users@[j]@));
            }
        }
    }
    if name_exists {
        return Err(StoreError::NameExists);
    }
    store.create(payload, now)
}

/// Replaces the fields of the profile `payload.userid`.
pub fn user_update_details(store: &mut RecordStore, payload: UserUpdatePayload) -> (r: Result<User, StoreError>)
    ensures
        (final(store)@, seen(r)) == update_profile_step(old(store)@, payload.userid, payload.fields()),
        r is Ok ==> lookup(final(store)@, payload.userid) == Ok::<UserView, StoreError>(r->Ok_0@),
        faithful(old(store)@) ==> faithful(final(store)@),
        issued(old(store)@) ==> issued(final(store)@),
        final(store).binding() == old(store).binding(),
{
    match check_fields(&payload.name, &payload.email, &payload.phonenumber, &payload.industry, &payload.skills) {
        Ok(()) => {},
        Err(e) => {
            return Err(e);
        },
    }
    let fields = UserPayload {
        name: payload.name,
        email: payload.email,
        phonenumber: payload.phonenumber,
        industry: payload.industry,
        skills: payload.skills,
    };
    store.update(payload.userid, fields)
}

/// Every stored profile, in ascending order of the keys; an error where the
/// store holds none.
pub fn get_all_users(store: &RecordStore) -> (r: Result<Vec<User>, StoreError>)
    ensures
        match r {
            Ok(users) => users@.len() > 0 && exists|keys: Seq<u64>| lists_keys(keys, store@.contents) && #[trigger] decodes_along(keys, users@, store@.contents),
            Err(e) => if has_corrupt(store@) {
                e == StoreError::Corrupt
            } else {
                e == StoreError::NoRecords && forall|k: u64| !store@.contents.contains_key(k)
            },
        },
        faithful(store@) ==> r is Ok ==> forall|i: int, j: int| 0 <= i < j < r->Ok_0@.len() ==> r->Ok_0@[i].id < r->Ok_0@[j].id,
{
    let users = match store.read_all() {
        Ok(users) => users,
        Err(e) => {
            return Err(e);
        },
    };
    let ghost keys = choose|keys: Seq<u64>| lists_keys(keys, store@.contents) && #[trigger] decodes_along(keys, users@, store@.contents);
    proof {
        assert forall|k: u64| #[trigger] store@.contents.contains_key(k) implies candid_decoding(store@.contents[k]) is Some && users@.len() > 0 by {
            assert(keys.contains(k));
            let j = choose|j: int| 0 <= j < keys.len() && keys[j] == k;
            assert(candid_decoding(store@.contents[keys[j]]) == Some(users@[j]@));
        }
    }
    if users.is_empty() {
        return Err(StoreError::NoRecords);
    }
    Ok(users)
}

/// The profile `payload.userid`.
pub fn get_user(store: &RecordStore, payload: SearchPayload) -> (r: Result<User, StoreError>)
    ensures
        seen(r) == lookup(store@, payload.userid),
{
    store.read_one(payload.userid)
}

/// Deletes the profile `payload.userid`.
pub fn delete_user_profile(store: &mut RecordStore, payload: DeleteUserPayload) -> (r: Result<(), StoreError>)
    ensures
        (final(store)@, r) == delete_step(old(store)@, payload.userid),
        r is Ok ==> lookup(final(store)@, payload.userid) == Err::<UserView, StoreError>(StoreError::NotFound),
        faithful(old(store)@) ==> faithful(final(store)@),
        issued(old(store)@) ==> issued(final(store)@),
        final(store).binding() == old(store).binding(),
{
    store.delete(payload.userid)
}

} // verus!
