use record_store::record::{
    DeleteUserPayload, SearchPayload, StoreError, User, UserPayload, UserUpdatePayload,
    MAX_RECORD_SIZE,
};
use record_store::service::{
    any_has_email, any_has_name, check_fields, create_user_profile, delete_user_profile,
    get_all_users, get_user, has_at_sign, user_update_details,
};
use record_store::storage::Backing;
use record_store::store::{decode_entries, do_insert, RecordStore};

fn payload(name: &str, email: &str) -> UserPayload {
    UserPayload {
        name: name.to_string(),
        email: email.to_string(),
        phonenumber: "555-0100".to_string(),
        industry: "rail".to_string(),
        skills: "welding".to_string(),
    }
}

fn user(id: u64, name: &str, email: &str, joined_date: u64) -> User {
    User {
        id,
        name: name.to_string(),
        email: email.to_string(),
        phonenumber: "555-0100".to_string(),
        industry: "rail".to_string(),
        skills: "welding".to_string(),
        joined_date,
    }
}

fn fresh() -> RecordStore {
    RecordStore::open(Backing::new())
}

#[test]
fn scenario_create_delete_create() {
    let mut store = fresh();
    let ann = create_user_profile(&mut store, payload("Ann", "a@x.com"), 10).unwrap();
    assert_eq!(ann.id, 0);
    let bo = create_user_profile(&mut store, payload("Bo", "b@x.com"), 11).unwrap();
    assert_eq!(bo.id, 1);
    assert_eq!(delete_user_profile(&mut store, DeleteUserPayload { userid: 0 }), Ok(()));
    let cy = create_user_profile(&mut store, payload("Cy", "c@x.com"), 12).unwrap();
    assert_eq!(cy.id, 2);
    let all = get_all_users(&store).unwrap();
    assert_eq!(all, vec![user(1, "Bo", "b@x.com", 11), user(2, "Cy", "c@x.com", 12)]);
}

#[test]
fn fresh_store_starts_at_zero_and_is_empty() {
    let store = fresh();
    assert_eq!(store.next_id(), 0);
    assert_eq!(store.read_all(), Ok(vec![]));
    assert_eq!(get_all_users(&store), Err(StoreError::NoRecords));
    assert!(store.is_consistent());
}

#[test]
fn identifiers_are_contiguous_from_zero() {
    let mut store = fresh();
    for i in 0..20u64 {
        let p = payload(&format!("n{}", i), &format!("e{}@x.com", i));
        let created = store.create(p, 100 + i).unwrap();
        assert_eq!(created.id, i);
        assert_eq!(created.joined_date, 100 + i);
        assert_eq!(store.next_id(), i + 1);
    }
}

#[test]
fn identifiers_increase_across_deletes_and_updates() {
    let mut store = fresh();
    let a = store.create(payload("a", "a@x"), 1).unwrap();
    store.delete(a.id).unwrap();
    let b = store.create(payload("b", "b@x"), 2).unwrap();
    store.update(b.id, payload("b2", "b2@x")).unwrap();
    store.delete(b.id).unwrap();
    let c = store.create(payload("c", "c@x"), 3).unwrap();
    assert_eq!((a.id, b.id, c.id), (0, 1, 2));
}

#[test]
fn create_stores_the_record_it_returns() {
    let mut store = fresh();
    let created = store.create(payload("Ann", "a@x.com"), 77).unwrap();
    assert_eq!(created, user(0, "Ann", "a@x.com", 77));
    assert_eq!(store.read_one(0), Ok(user(0, "Ann", "a@x.com", 77)));
    assert_eq!(get_user(&store, SearchPayload { userid: 0 }), Ok(created));
}

#[test]
fn read_all_is_ordered_by_identifier_whatever_the_insertion_order() {
    let mut store = fresh();
    for id in [5u64, 1, 9, 3, 7, 0, 2] {
        assert_eq!(do_insert(&mut store, &user(id, "n", "e@x", id * 2)), Ok(()));
    }
    let all = store.read_all().unwrap();
    let ids: Vec<u64> = all.iter().map(|u| u.id).collect();
    assert_eq!(ids, vec![0, 1, 2, 3, 5, 7, 9]);
    assert_eq!(all[4], user(5, "n", "e@x", 10));
}

#[test]
fn do_insert_replaces_the_record_under_the_same_identifier() {
    let mut store = fresh();
    do_insert(&mut store, &user(4, "old", "old@x", 1)).unwrap();
    do_insert(&mut store, &user(4, "new", "new@x", 2)).unwrap();
    assert_eq!(store.read_all(), Ok(vec![user(4, "new", "new@x", 2)]));
}

#[test]
fn encoding_round_trips() {
    let u = User {
        id: 42,
        name: "Zoë".to_string(),
        email: "z@ö.example".to_string(),
        phonenumber: String::new(),
        industry: "a\nb".to_string(),
        skills: "x".repeat(100),
        joined_date: u64::MAX,
    };
    let bytes = u.to_bytes().unwrap();
    assert_eq!(User::from_bytes(&bytes), Ok(u));
}

#[test]
fn encoding_is_candid() {
    let u = user(1, "a", "b", 2);
    let bytes = u.to_bytes().unwrap();
    assert_eq!(&bytes[..4], b"DIDL");
    let expected = candid::encode_args((
        1u64,
        "a".to_string(),
        "b".to_string(),
        "555-0100".to_string(),
        "rail".to_string(),
        "welding".to_string(),
        2u64,
    ))
    .unwrap();
    assert_eq!(bytes, expected);
}

#[test]
fn from_bytes_refuses_what_is_no_record() {
    assert_eq!(User::from_bytes(&vec![1, 2, 3]), Err(StoreError::Corrupt));
    assert_eq!(User::from_bytes(&vec![]), Err(StoreError::Corrupt));
    let other = candid::encode_args((1u64, "only".to_string())).unwrap();
    assert_eq!(User::from_bytes(&other), Err(StoreError::Corrupt));
}

#[test]
fn decode_entries_keeps_order_and_stops_at_a_bad_value() {
    let a = user(3, "a", "a@x", 1);
    let b = user(1, "b", "b@x", 2);
    let good = vec![(3u64, a.to_bytes().unwrap()), (1u64, b.to_bytes().unwrap())];
    assert_eq!(decode_entries(&good), Ok(vec![a.clone(), b]));
    let bad = vec![(3u64, a.to_bytes().unwrap()), (4u64, vec![0u8])];
    assert_eq!(decode_entries(&bad), Err(StoreError::Corrupt));
    assert_eq!(decode_entries(&vec![]), Ok(vec![]));
}

#[test]
fn update_keeps_identifier_and_creation_time() {
    let mut store = fresh();
    store.create(payload("Ann", "a@x.com"), 10).unwrap();
    store.create(payload("Bo", "b@x.com"), 11).unwrap();
    let updated = user_update_details(
        &mut store,
        UserUpdatePayload {
            name: "Robert".to_string(),
            email: "rob@x.com".to_string(),
            phonenumber: "1".to_string(),
            industry: "2".to_string(),
            skills: "3".to_string(),
            userid: 1,
        },
    )
    .unwrap();
    let expected = User {
        id: 1,
        name: "Robert".to_string(),
        email: "rob@x.com".to_string(),
        phonenumber: "1".to_string(),
        industry: "2".to_string(),
        skills: "3".to_string(),
        joined_date: 11,
    };
    assert_eq!(updated, expected);
    assert_eq!(store.read_one(1), Ok(expected));
    assert_eq!(store.read_one(0), Ok(user(0, "Ann", "a@x.com", 10)));
    assert_eq!(store.next_id(), 2);
}

#[test]
fn update_of_a_missing_record_is_not_found() {
    let mut store = fresh();
    assert_eq!(store.update(3, payload("a", "a@x")), Err(StoreError::NotFound));
    let p = UserUpdatePayload {
        name: "a".to_string(),
        email: "a@x".to_string(),
        phonenumber: "1".to_string(),
        industry: "2".to_string(),
        skills: "3".to_string(),
        userid: 3,
    };
    assert_eq!(user_update_details(&mut store, p), Err(StoreError::NotFound));
    assert_eq!(store.read_all(), Ok(vec![]));
}

#[test]
fn delete_is_final() {
    let mut store = fresh();
    store.create(payload("Ann", "a@x.com"), 10).unwrap();
    assert_eq!(store.delete(0), Ok(()));
    assert_eq!(store.read_one(0), Err(StoreError::NotFound));
    assert_eq!(store.delete(0), Err(StoreError::NotFound));
    assert_eq!(
        delete_user_profile(&mut store, DeleteUserPayload { userid: 0 }),
        Err(StoreError::NotFound)
    );
    for i in 0..5u64 {
        let created = store.create(payload("n", "e@x"), i).unwrap();
        assert_ne!(created.id, 0);
    }
}

#[test]
fn read_of_a_missing_record_is_not_found() {
    let store = fresh();
    assert_eq!(store.read_one(0), Err(StoreError::NotFound));
    assert_eq!(get_user(&store, SearchPayload { userid: 9 }), Err(StoreError::NotFound));
}

#[test]
fn records_survive_reopening_the_memory() {
    let mut store = fresh();
    for i in 0..10u64 {
        store.create(payload(&format!("n{}", i), &format!("e{}@x", i)), i).unwrap();
    }
    store.delete(9).unwrap();
    let before = store.read_all().unwrap();
    let backing = store.close().unwrap();
    let mut reopened = RecordStore::open(backing);
    assert_eq!(reopened.read_all(), Ok(before));
    assert_eq!(reopened.next_id(), 10);
    assert!(reopened.is_consistent());
    let next = reopened.create(payload("later", "l@x"), 99).unwrap();
    assert_eq!(next.id, 10);
}

#[test]
fn consistency_check_sees_a_misplaced_record() {
    let mut store = fresh();
    store.create(payload("Ann", "a@x.com"), 10).unwrap();
    assert!(store.is_consistent());
    do_insert(&mut store, &user(0, "Ann2", "a2@x.com", 10)).unwrap();
    assert!(store.is_consistent());
    do_insert(&mut store, &user(7, "far", "f@x.com", 10)).unwrap();
    assert!(!store.is_consistent());
}

#[test]
fn empty_field_is_refused() {
    let mut store = fresh();
    let mut p = payload("Ann", "a@x.com");
    p.skills = String::new();
    assert_eq!(create_user_profile(&mut store, p, 1), Err(StoreError::EmptyFields));
    let mut q = payload("Ann", "a@x.com");
    q.name = String::new();
    q.email = "no-at".to_string();
    assert_eq!(create_user_profile(&mut store, q, 1), Err(StoreError::EmptyFields));
    assert_eq!(store.next_id(), 0);
    let u = UserUpdatePayload {
        name: "a".to_string(),
        email: "a@x".to_string(),
        phonenumber: String::new(),
        industry: "2".to_string(),
        skills: "3".to_string(),
        userid: 0,
    };
    assert_eq!(user_update_details(&mut store, u), Err(StoreError::EmptyFields));
}

#[test]
fn email_without_at_sign_is_refused() {
    let mut store = fresh();
    assert_eq!(
        create_user_profile(&mut store, payload("Ann", "a.x.com"), 1),
        Err(StoreError::InvalidFormat)
    );
    store.create(payload("Ann", "a@x.com"), 1).unwrap();
    let u = UserUpdatePayload {
        name: "a".to_string(),
        email: "ax".to_string(),
        phonenumber: "1".to_string(),
        industry: "2".to_string(),
        skills: "3".to_string(),
        userid: 0,
    };
    assert_eq!(user_update_details(&mut store, u), Err(StoreError::InvalidFormat));
    assert_eq!(store.read_one(0), Ok(user(0, "Ann", "a@x.com", 1)));
}

#[test]
fn duplicate_email_and_name_are_refused() {
    let mut store = fresh();
    create_user_profile(&mut store, payload("Ann", "a@x.com"), 1).unwrap();
    assert_eq!(
        create_user_profile(&mut store, payload("Other", "a@x.com"), 2),
        Err(StoreError::EmailExists)
    );
    assert_eq!(
        create_user_profile(&mut store, payload("Ann", "other@x.com"), 2),
        Err(StoreError::NameExists)
    );
    assert_eq!(
        create_user_profile(&mut store, payload("Ann", "a@x.com"), 2),
        Err(StoreError::EmailExists)
    );
    assert_eq!(store.next_id(), 1);
    assert_eq!(get_all_users(&store), Ok(vec![user(0, "Ann", "a@x.com", 1)]));
}

#[test]
fn oversized_record_is_refused_and_leaves_the_store_as_it_was() {
    let mut store = fresh();
    let mut big = payload("Ann", "a@x.com");
    big.skills = "s".repeat(MAX_RECORD_SIZE);
    assert_eq!(store.create(big.clone(), 1), Err(StoreError::RecordTooLarge));
    assert_eq!(store.next_id(), 0);
    assert_eq!(store.read_all(), Ok(vec![]));
    store.create(payload("Ann", "a@x.com"), 1).unwrap();
    assert_eq!(store.update(0, big), Err(StoreError::RecordTooLarge));
    assert_eq!(store.read_one(0), Ok(user(0, "Ann", "a@x.com", 1)));
}

#[test]
fn record_at_the_size_limit_is_stored() {
    let mut store = fresh();
    let base = user(0, "", "", 0).to_bytes().unwrap().len();
    let mut u = user(0, "", "", 0);
    u.name = "n".repeat(MAX_RECORD_SIZE - base - 1);
    let len = u.to_bytes().unwrap().len();
    u.name.push_str(&"n".repeat(MAX_RECORD_SIZE - len));
    assert_eq!(u.to_bytes().unwrap().len(), MAX_RECORD_SIZE);
    assert_eq!(do_insert(&mut store, &u), Ok(()));
    u.name.push('n');
    assert_eq!(do_insert(&mut store, &u), Err(StoreError::RecordTooLarge));
}

#[test]
fn field_checks() {
    let s = |t: &str| t.to_string();
    assert_eq!(check_fields(&s("n"), &s("e@x"), &s("p"), &s("i"), &s("s")), Ok(()));
    assert_eq!(check_fields(&s("n"), &s("@"), &s("p"), &s("i"), &s("s")), Ok(()));
    assert_eq!(
        check_fields(&s("n"), &s(""), &s("p"), &s("i"), &s("s")),
        Err(StoreError::EmptyFields)
    );
    assert_eq!(
        check_fields(&s("n"), &s("ex"), &s("p"), &s("i"), &s("s")),
        Err(StoreError::InvalidFormat)
    );
    assert!(has_at_sign("é@"));
    assert!(has_at_sign("@"));
    assert!(!has_at_sign(""));
    assert!(!has_at_sign("éa.b"));
}

#[test]
fn scans_find_email_and_name() {
    let users = vec![user(0, "Ann", "a@x", 1), user(1, "Bo", "b@x", 2)];
    assert!(any_has_email(&users, &"b@x".to_string()));
    assert!(!any_has_email(&users, &"Bo".to_string()));
    assert!(any_has_name(&users, &"Ann".to_string()));
    assert!(!any_has_name(&users, &"a@x".to_string()));
    assert!(!any_has_name(&vec![], &"Ann".to_string()));
}

#[test]
fn duplicate_gives_an_equal_record() {
    let u = user(3, "Ann", "a@x", 1);
    assert_eq!(u.duplicate(), u);
}

#[test]
fn defaults_are_empty() {
    assert_eq!(User::default(), User {
        id: 0,
        name: String::new(),
        email: String::new(),
        phonenumber: String::new(),
        industry: String::new(),
        skills: String::new(),
        joined_date: 0,
    });
    assert_eq!(UserPayload::default().email, "");
    assert_eq!(UserUpdatePayload::default().userid, 0);
    assert_eq!(SearchPayload::default(), SearchPayload { userid: 0 });
    assert_eq!(DeleteUserPayload::default(), DeleteUserPayload { userid: 0 });
    let mut store = fresh();
    assert_eq!(
        create_user_profile(&mut store, UserPayload::default(), 0),
        Err(StoreError::EmptyFields)
    );
}
