//! The record store: the identifier generator and the record table, bound
//! together, with the operations that create, read, replace and delete
//! records.

use vstd::prelude::*;
use crate::codec::{candid_decoding, candid_encoding};
use crate::laws::{lemma_listing_ascends, lemma_put_keeps_issued, lemma_step_keeps_order, Operation};
use crate::record::{record_of, FieldsView, StoreError, User, UserPayload, UserView, MAX_RECORD_SIZE};
use crate::storage::{
    cell_get, cell_init, cell_region, cell_set, cell_value, entry_keys, lists_keys, regions_get,
    regions_init, regions_into_memory, table_contains, table_contents, table_entries, table_get,
    table_init, table_insert, table_region, table_remove, Backing, IdCell, RecordTable, Regions,
};

verus! {

/// The region that holds the identifier generator.
pub const COUNTER_REGION: u8 = 0;

/// The region that holds the record table.
pub const TABLE_REGION: u8 = 1;

/// The store: the generator's cell and the table, on regions of one memory.
pub struct RecordStore {
    regions: Regions,
    counter: IdCell,
    table: RecordTable,
}

/// What a store holds: the next identifier to issue, and the stored bytes by
/// identifier.
pub ghost struct StoreView {
    pub next_id: u64,
    pub contents: Map<u64, Seq<u8>>,
}

impl View for RecordStore {
    type V = StoreView;

    closed spec fn view(&self) -> StoreView {
        StoreView { next_id: cell_value(self.counter), contents: table_contents(self.table) }
    }
}

/// A result as contracts see it.
pub open spec fn seen(r: Result<User, StoreError>) -> Result<UserView, StoreError> {
    match r {
        Ok(u) => Ok(u@),
        Err(e) => Err(e),
    }
}

/// Every stored identifier was issued: it lies below the next one.
pub open spec fn issued(s: StoreView) -> bool {
    forall|k: u64| #[trigger] s.contents.contains_key(k) ==> k < s.next_id
}

/// Every stored value decodes to a record that carries its own key.
pub open spec fn faithful(s: StoreView) -> bool {
    forall|k: u64| #[trigger]
        s.contents.contains_key(k) ==> candid_decoding(s.contents[k]) is Some
            && candid_decoding(s.contents[k])->Some_0.id == k
}

/// What reading the record `id` gives.
pub open spec fn lookup(s: StoreView, id: u64) -> Result<UserView, StoreError> {
    if !s.contents.contains_key(id) {
        Err(StoreError::NotFound)
    } else {
        match candid_decoding(s.contents[id]) {
            Some(u) => Ok(u),
            None => Err(StoreError::Corrupt),
        }
    }
}

/// What storing `user` under `key` gives: the store after it, and the stored
/// record or the reason for which the store is unchanged.
pub open spec fn put_step(s: StoreView, key: u64, user: UserView) -> (StoreView, Result<UserView, StoreError>) {
    match candid_encoding(user) {
        None => (s, Err(StoreError::Encoding)),
        Some(bytes) => if bytes.len() > MAX_RECORD_SIZE {
            (s, Err(StoreError::RecordTooLarge))
        } else {
            (StoreView { next_id: s.next_id, contents: s.contents.insert(key, bytes) }, Ok(user))
        },
    }
}

/// What creating a record from `fields` at time `now` gives.
pub open spec fn create_step(s: StoreView, fields: FieldsView, now: u64) -> (StoreView, Result<UserView, StoreError>) {
    if s.next_id == u64::MAX {
        (s, Err(StoreError::IdentifiersExhausted))
    } else {
        let put = put_step(s, s.next_id, record_of(s.next_id, fields, now));
        match put.1 {
            Ok(_) => (StoreView { next_id: (s.next_id + 1) as u64, contents: put.0.contents }, put.1),
            Err(_) => put,
        }
    }
}

/// What replacing the fields of the record `id` gives.
pub open spec fn update_step(s: StoreView, id: u64, fields: FieldsView) -> (StoreView, Result<UserView, StoreError>) {
    match lookup(s, id) {
        Err(e) => (s, Err(e)),
        Ok(stored) => put_step(s, id, record_of(stored.id, fields, stored.joined_date)),
    }
}

/// What deleting the record `id` gives.
pub open spec fn delete_step(s: StoreView, id: u64) -> (StoreView, Result<(), StoreError>) {
    if s.contents.contains_key(id) {
        (StoreView { next_id: s.next_id, contents: s.contents.remove(id) }, Ok(()))
    } else {
        (s, Err(StoreError::NotFound))
    }
}

/// `users` are the records stored under `keys`, in that order.
pub open spec fn decodes_along(keys: Seq<u64>, users: Seq<User>, contents: Map<u64, Seq<u8>>) -> bool {
    &&& users.len() == keys.len()
    &&& forall|i: int| 0 <= i < keys.len() ==> candid_decoding(contents[#[trigger] keys[i]]) == Some(users[i]@)
}

/// Decodes the values of `entries`, in order; fails at the first that does not
/// decode.
pub fn decode_entries(entries: &Vec<(u64, Vec<u8>)>) -> (r: Result<Vec<User>, StoreError>)
    ensures
        match r {
            Ok(users) => users@.len() == entries@.len() && forall|i: int|
                0 <= i < entries@.len() ==> candid_decoding(#[trigger] entries@[i].1@) == Some(users@[i]@),
            Err(e) => e == StoreError::Corrupt && exists|i: int|
                0 <= i < entries@.len() && candid_decoding(#[trigger] entries@[i].1@) is None,
        },
{
    let mut users: Vec<User> = Vec::new();
    let mut i: usize = 0;
    while i < entries.len()
        invariant
            i <= entries@.len(),
            users@.len() == i,
            forall|j: int| 0 <= j < i ==> candid_decoding(#[trigger] entries@[j].1@) == Some(users@[j]@),
        decreases entries@.len() - i,
    {
        match User::from_bytes(&entries[i].1) {
            Ok(user) => {
                users.push(user);
            },
            Err(e) => {
                return Err(e);
            },
        }
        i += 1;
    }
    Ok(users)
}

impl RecordStore {
    /// Binds a store to `backing`: the generator to `COUNTER_REGION`, starting
    /// at 0 where the region holds no cell yet, and the table to
    /// `TABLE_REGION`. What the store then holds is what the memory held, so
    /// nothing is promised of it here: `is_consistent` tells whether it can be
    /// relied on. Aborts where the memory holds a layout of another version.
    pub fn open(backing: Backing) -> (store: RecordStore)
        ensures
            store.binding() == (COUNTER_REGION, TABLE_REGION),
    {
        let regions = regions_init(backing);
        let counter = cell_init(regions_get(&regions, COUNTER_REGION), 0);
        let table = table_init(regions_get(&regions, TABLE_REGION));
        RecordStore { regions, counter, table }
    }

    /// Lets go of the regions and gives the backing memory back, to be opened
    /// again.
    pub fn close(self) -> Option<Backing> {
        let RecordStore { regions, counter, table } = self;
        release_cell(counter);
        release_table(table);
        regions_into_memory(regions)
    }

    /// The regions that the store is bound to: the generator's, then the
    /// table's.
    pub closed spec fn binding(&self) -> (u8, u8) {
        (cell_region(self.counter), table_region(self.table))
    }

    /// The identifier that the next created record gets.
    pub fn next_id(&self) -> (id: u64)
        ensures
            id == self@.next_id,
    {
        cell_get(&self.counter)
    }

    /// Whether every stored identifier lies below the next one and every
    /// stored value decodes to a record that carries its own key.
    pub fn is_consistent(&self) -> (ok: bool)
        ensures
            ok == (issued(self@) && faithful(self@)),
    {
        let next = cell_get(&self.counter);
        let entries = table_entries(&self.table);
        let ghost keys = entry_keys(entries@);
        let mut i: usize = 0;
        while i < entries.len()
            invariant
                i <= entries@.len(),
                next == self@.next_id,
                keys == entry_keys(entries@),
                lists_keys(keys, self@.contents),
                forall|j: int| 0 <= j < entries@.len() ==> (#[trigger] entries@[j]).1@ == self@.contents[entries@[j].0],
                forall|j: int| 0 <= j < i ==> keys[j] < next
                    && candid_decoding(self@.contents[#[trigger] keys[j]]) is Some
                    && candid_decoding(self@.contents[keys[j]])->Some_0.id == keys[j],
            decreases entries@.len() - i,
        {
            let key = entries[i].0;
            assert(key == keys[i as int]);
            assert(self@.contents.contains_key(keys[i as int]));
            if key >= next {
                return false;
            }
            match User::from_bytes(&entries[i].1) {
                Ok(user) => {
                    if user.id != key {
                        return false;
                    }
                },
                Err(_) => {
                    return false;
                },
            }
            i += 1;
        }
        proof {
            assert forall|k: u64| #[trigger] self@.contents.contains_key(k) implies k < next
                && candid_decoding(self@.contents[k]) is Some
                && candid_decoding(self@.contents[k])->Some_0.id == k by {
                assert(keys.contains(k));
                let j = choose|j: int| 0 <= j < keys.len() && keys[j] == k;
                assert(keys[j] == k);
            }
        }
        true
    }

    /// Stores `user` under `key`, replacing what was there.
    fn put(&mut self, key: u64, user: &User) -> (r: Result<(), StoreError>)
        ensures
            final(self)@ == put_step(old(self)@, key, user@).0,
            r is Ok <==> put_step(old(self)@, key, user@).1 is Ok,
            r is Err ==> Err::<UserView, StoreError>(r->Err_0) == put_step(old(self)@, key, user@).1,
            r is Ok ==> lookup(final(self)@, key) == Ok::<UserView, StoreError>(user@),
            faithful(old(self)@) && user.id == key ==> faithful(final(self)@),
            final(self).binding() == old(self).binding(),
    {
        let bytes = match user.to_bytes() {
            Ok(b) => b,
            Err(e) => {
                return Err(e);
            },
        };
        if bytes.len() > MAX_RECORD_SIZE {
            return Err(StoreError::RecordTooLarge);
        }
        table_insert(&mut self.table, key, bytes);
        Ok(())
    }

    /// Create: issues the next identifier, stamps `now` as the creation time,
    /// stores the record and returns it.
    pub fn create(&mut self, payload: UserPayload, now: u64) -> (r: Result<User, StoreError>)
        ensures
            (final(self)@, seen(r)) == create_step(old(self)@, payload@, now),
            r is Ok ==> lookup(final(self)@, r->Ok_0.id) == Ok::<UserView, StoreError>(r->Ok_0@),
            faithful(old(self)@) ==> faithful(final(self)@),
            issued(old(self)@) ==> issued(final(self)@),
            final(self).binding() == old(self).binding(),
    {
        proof {
            lemma_step_keeps_order(self@, Operation::Create { fields: payload@, now });
        }
        let id = cell_get(&self.counter);
        if id == u64::MAX {
            return Err(StoreError::IdentifiersExhausted);
        }
        let user = User {
            id,
            name: payload.name,
            email: payload.email,
            phonenumber: payload.phonenumber,
            industry: payload.industry,
            skills: payload.skills,
            joined_date: now,
        };
        match self.put(id, &user) {
            Ok(()) => {
                cell_set(&mut self.counter, id + 1);
                Ok(user)
            },
            Err(e) => Err(e),
        }
    }

    /// Read-one: the record stored under `id`.
    pub fn read_one(&self, id: u64) -> (r: Result<User, StoreError>)
        ensures
            seen(r) == lookup(self@, id),
    {
        match table_get(&self.table, id) {
            Some(bytes) => User::from_bytes(&bytes),
            None => Err(StoreError::NotFound),
        }
    }

    /// Read-all: every stored record, in ascending order of the keys. Where
    /// every record carries its own key, that is ascending order of the
    /// records' identifiers.
    pub fn read_all(&self) -> (r: Result<Vec<User>, StoreError>)
        ensures
            match r {
                Ok(users) => exists|keys: Seq<u64>| lists_keys(keys, self@.contents) && #[trigger] decodes_along(keys, users@, self@.contents),
                Err(e) => e == StoreError::Corrupt && exists|k: u64| #[trigger] self@.contents.contains_key(k) && candid_decoding(self@.contents[k]) is None,
            },
            faithful(self@) ==> r is Ok && forall|i: int, j: int| 0 <= i < j < r->Ok_0@.len() ==> r->Ok_0@[i].id < r->Ok_0@[j].id,
    {
        let entries = table_entries(&self.table);
        let ghost keys = entry_keys(entries@);
        let r = decode_entries(&entries);
        proof {
            if r is Ok {
                let users = r->Ok_0;
                assert forall|i: int| 0 <= i < keys.len() implies candid_decoding(
                    self@.contents[#[trigger] keys[i]],
                ) == Some(users@[i]@) by {
                    assert(entries@[i].1@ == self@.contents[entries@[i].0]);
                }
                assert(decodes_along(keys, users@, self@.contents));
                if faithful(self@) {
                    lemma_listing_ascends(self@, keys, users@);
                }
            } else {
                let i = choose|i: int|
                    0 <= i < entries@.len() && candid_decoding(#[trigger] entries@[i].1@) is None;
                assert(entries@[i].1@ == self@.contents[entries@[i].0]);
                assert(self@.contents.contains_key(keys[i]));
            }
        }
        r
    }

    /// Update: replaces every field of the record `id` but its identifier and
    /// its creation time, and returns the record as stored.
    pub fn update(&mut self, id: u64, payload: UserPayload) -> (r: Result<User, StoreError>)
        ensures
            (final(self)@, seen(r)) == update_step(old(self)@, id, payload@),
            r is Ok ==> lookup(final(self)@, id) == Ok::<UserView, StoreError>(r->Ok_0@),
            faithful(old(self)@) ==> faithful(final(self)@),
            issued(old(self)@) ==> issued(final(self)@),
            final(self).binding() == old(self).binding(),
    {
        proof {
            lemma_step_keeps_order(self@, Operation::Update { id, fields: payload@ });
        }
        let stored = match self.read_one(id) {
            Ok(u) => u,
            Err(e) => {
                return Err(e);
            },
        };
        let user = User {
            id: stored.id,
            name: payload.name,
            email: payload.email,
            phonenumber: payload.phonenumber,
            industry: payload.industry,
            skills: payload.skills,
            joined_date: stored.joined_date,
        };
        match self.put(id, &user) {
            Ok(()) => Ok(user),
            Err(e) => Err(e),
        }
    }

    /// Delete: removes the record `id`. Its identifier is not issued again.
    pub fn delete(&mut self, id: u64) -> (r: Result<(), StoreError>)
        ensures
            (final(self)@, r) == delete_step(old(self)@, id),
            r is Ok ==> lookup(final(self)@, id) == Err::<UserView, StoreError>(StoreError::NotFound),
            faithful(old(self)@) ==> faithful(final(self)@),
            issued(old(self)@) ==> issued(final(self)@),
            final(self).binding() == old(self).binding(),
    {
        proof {
            lemma_step_keeps_order(self@, Operation::Delete { id });
        }
        if !table_contains(&self.table, id) {
            return Err(StoreError::NotFound);
        }
        table_remove(&mut self.table, id);
        Ok(())
    }
}

/// Drops a cell, and with it its hold on its region.
fn release_cell(_cell: IdCell) {
}

/// Drops a table, and with it its hold on its region.
fn release_table(_table: RecordTable) {
}

/// Stores `us` under its own identifier, replacing what was there.
pub fn do_insert(store: &mut RecordStore, us: &User) -> (r: Result<(), StoreError>)
    ensures
        final(store)@ == put_step(old(store)@, us.id, us@).0,
        r is Ok <==> put_step(old(store)@, us.id, us@).1 is Ok,
        r is Err ==> Err::<UserView, StoreError>(r->Err_0) == put_step(old(store)@, us.id, us@).1,
        r is Ok ==> lookup(final(store)@, us.id) == Ok::<UserView, StoreError>(us@),
        faithful(old(store)@) ==> faithful(final(store)@),
        issued(old(store)@) && us.id < old(store)@.next_id ==> issued(final(store)@),
        final(store).binding() == old(store).binding(),
{
    proof {
        if issued(store@) && us.id < store@.next_id {
            lemma_put_keeps_issued(store@, us.id, us@);
        }
    }
    store.put(us.id, us)
}

} // verus!
