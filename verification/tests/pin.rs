use club_events::auth::{admit_bearer, AuthContext};
use club_events::failure::{AdmissionError, Failure};
use club_events::ident::DocId;
use club_events::memory::MemoryStore;
use club_events::models::{Event, EventType, User, UserType};
use club_events::pin::{update_pinned, PinSaga};
use club_events::store::{Step, StoreReply, StoreRequest};
use club_events::token::{issue, Privilege};

const KEY: &[u8] = b"club secret";

fn id(n: u8) -> DocId {
    DocId::from_bytes([n; 12])
}

fn hex(n: u8) -> String {
    format!("{:02x}", n).repeat(12)
}

fn event(n: u8) -> Event {
    Event {
        id: Some(id(n)),
        name: format!("event {}", n),
        location: String::from("hall"),
        date: 1_700_000_000,
        description: String::new(),
        event_type: EventType::Workshop,
        host_id: None,
        attendees: vec![],
        image_url: None,
        pinned: false,
    }
}

fn user(n: u8) -> User {
    User {
        id: Some(id(n)),
        name: format!("user {}", n),
        email: format!("user{}@x.io", n),
        tel: String::new(),
        password: String::new(),
        wallet: String::new(),
        admin: Some(true),
        user_type: UserType::CORETEAM,
        role: String::new(),
        stack: vec![],
        graduate: true,
        level: 0,
        department: String::new(),
        university: String::new(),
        student: String::new(),
        attending_events: vec![],
        created_at: 0,
        updated_at: 0,
    }
}

/// A store with events 0xe1, 0xe2 and 0xe3 and user 1, admitted as given.
fn club(transactional: bool, privilege: Privilege) -> (MemoryStore, AuthContext) {
    let mut store = MemoryStore::new(transactional);
    assert!(store.insert_event(event(0xe1)));
    assert!(store.insert_event(event(0xe2)));
    assert!(store.insert_event(event(0xe3)));
    assert!(store.insert_user(user(1)));
    let issued = issue(KEY, id(1), privilege, 100, 50).unwrap();
    let context = admit_bearer(&mut store, KEY, &issued.token, privilege, 120).unwrap();
    (store, context)
}

fn pinned(store: &MemoryStore) -> Vec<u8> {
    [0xe1u8, 0xe2, 0xe3].into_iter().filter(|n| store.event(&id(*n)).unwrap().pinned).collect()
}

#[test]
fn pin_sets_the_target_alone() {
    let (mut store, admin) = club(true, Privilege::Admin);
    assert_eq!(update_pinned(&mut store, &admin, &hex(0xe2), true), Ok(()));
    assert_eq!(pinned(&store), vec![0xe2]);
    assert_eq!(store.pinned_count(), 1);
}

#[test]
fn unpin_leaves_nothing_pinned() {
    let (mut store, admin) = club(true, Privilege::Admin);
    assert_eq!(update_pinned(&mut store, &admin, &hex(0xe2), true), Ok(()));
    assert_eq!(update_pinned(&mut store, &admin, &hex(0xe3), false), Ok(()));
    assert_eq!(store.pinned_count(), 0);
}

#[test]
fn every_call_of_a_sequence_leaves_at_most_one_pinned() {
    let (mut store, admin) = club(true, Privilege::Admin);
    let calls = [(0xe1u8, true), (0xe3, true), (0xe3, true), (0xe2, false), (0xe2, true), (0xe1, true)];
    for (target, pin) in calls {
        assert_eq!(update_pinned(&mut store, &admin, &hex(target), pin), Ok(()));
        let expected: Vec<u8> = if pin { vec![target] } else { vec![] };
        assert_eq!(pinned(&store), expected);
        assert!(store.pinned_count() <= 1);
    }
}

#[test]
fn missing_target_in_a_transaction_keeps_the_pin() {
    let (mut store, admin) = club(true, Privilege::Admin);
    assert_eq!(update_pinned(&mut store, &admin, &hex(0xe1), true), Ok(()));
    assert_eq!(update_pinned(&mut store, &admin, &hex(0xe9), true), Err(Failure::NotFound));
    assert_eq!(pinned(&store), vec![0xe1]);
}

#[test]
fn failure_in_a_transaction_changes_nothing() {
    for script in [
        vec![false, true],
        vec![false, false, true],
        vec![false, false, false, true],
        vec![false, true, true],
        vec![false, false, false, true, true],
    ] {
        let (mut store, admin) = club(true, Privilege::Admin);
        assert_eq!(update_pinned(&mut store, &admin, &hex(0xe1), true), Ok(()));
        store.script_faults(script);
        assert_eq!(
            update_pinned(&mut store, &admin, &hex(0xe2), true),
            Err(Failure::PersistenceError)
        );
        assert_eq!(pinned(&store), vec![0xe1]);
        store.script_faults(vec![]);
        assert_eq!(update_pinned(&mut store, &admin, &hex(0xe2), true), Ok(()));
        assert_eq!(pinned(&store), vec![0xe2]);
    }
}

#[test]
fn without_transactions_the_two_writes_are_made_in_turn() {
    let (mut store, admin) = club(false, Privilege::Admin);
    assert_eq!(update_pinned(&mut store, &admin, &hex(0xe1), true), Ok(()));
    assert_eq!(update_pinned(&mut store, &admin, &hex(0xe2), true), Ok(()));
    assert_eq!(pinned(&store), vec![0xe2]);
}

#[test]
fn transaction_that_fails_to_start_falls_back() {
    let (mut store, admin) = club(true, Privilege::Admin);
    assert_eq!(update_pinned(&mut store, &admin, &hex(0xe1), true), Ok(()));
    store.script_faults(vec![true]);
    assert_eq!(update_pinned(&mut store, &admin, &hex(0xe2), true), Ok(()));
    assert_eq!(pinned(&store), vec![0xe2]);
}

#[test]
fn missing_target_without_a_transaction_still_clears_the_pins() {
    let (mut store, admin) = club(false, Privilege::Admin);
    assert_eq!(update_pinned(&mut store, &admin, &hex(0xe1), true), Ok(()));
    assert_eq!(update_pinned(&mut store, &admin, &hex(0xe9), true), Err(Failure::NotFound));
    assert_eq!(store.pinned_count(), 0);
}

#[test]
fn failed_target_write_without_a_transaction_leaves_no_pin() {
    let (mut store, admin) = club(false, Privilege::Admin);
    assert_eq!(update_pinned(&mut store, &admin, &hex(0xe1), true), Ok(()));
    store.script_faults(vec![false, false, true]);
    assert_eq!(update_pinned(&mut store, &admin, &hex(0xe2), true), Err(Failure::PersistenceError));
    assert_eq!(store.pinned_count(), 0);
}

#[test]
fn failed_clearing_without_a_transaction_ends_the_update() {
    let (mut store, admin) = club(false, Privilege::Admin);
    assert_eq!(update_pinned(&mut store, &admin, &hex(0xe1), true), Ok(()));
    store.script_faults(vec![false, true, false, true]);
    assert_eq!(update_pinned(&mut store, &admin, &hex(0xe2), true), Err(Failure::PersistenceError));
    assert_eq!(pinned(&store), vec![0xe1]);
    assert_eq!(update_pinned(&mut store, &admin, &hex(0xe2), true), Err(Failure::PersistenceError));
    assert_eq!(pinned(&store), vec![0xe1]);
    assert_eq!(update_pinned(&mut store, &admin, &hex(0xe2), true), Ok(()));
    assert_eq!(pinned(&store), vec![0xe2]);
}

#[test]
fn failed_clearing_without_a_transaction_reports_no_missing_target() {
    let (mut store, admin) = club(false, Privilege::Admin);
    assert_eq!(update_pinned(&mut store, &admin, &hex(0xe1), true), Ok(()));
    store.script_faults(vec![false, true]);
    assert_eq!(update_pinned(&mut store, &admin, &hex(0xe9), true), Err(Failure::PersistenceError));
    assert_eq!(pinned(&store), vec![0xe1]);
}

#[test]
fn no_fault_leaves_two_events_pinned() {
    for transactional in [true, false] {
        for fault in 0..5 {
            let (mut store, admin) = club(transactional, Privilege::Admin);
            assert_eq!(update_pinned(&mut store, &admin, &hex(0xe1), true), Ok(()));
            let mut script = vec![false; 5];
            script[fault] = true;
            store.script_faults(script);
            let _ = update_pinned(&mut store, &admin, &hex(0xe2), true);
            assert!(store.pinned_count() <= 1);
            let _ = update_pinned(&mut store, &admin, &hex(0xe3), true);
            assert!(store.pinned_count() <= 1);
        }
    }
}

#[test]
fn pin_saga_without_a_transaction_stops_at_a_failed_clearing() {
    let (_, admin) = club(false, Privilege::Admin);
    let (mut saga, _) = PinSaga::begin(&admin, id(0xe1), true);
    assert!(matches!(saga.advance(&StoreReply::Failed), Step::Ask(StoreRequest::UnsetAllPinned)));
    assert!(matches!(
        saga.advance(&StoreReply::Failed),
        Step::Done(Err(Failure::PersistenceError))
    ));
    let (mut saga, _) = PinSaga::begin(&admin, id(0xe1), true);
    saga.advance(&StoreReply::Failed);
    assert!(matches!(
        saga.advance(&StoreReply::Matched(1)),
        Step::Ask(StoreRequest::SetPinned { pinned: true, .. })
    ));
    assert!(matches!(saga.advance(&StoreReply::Matched(1)), Step::Done(Ok(()))));
}

#[test]
fn ordinary_caller_may_not_pin() {
    let (mut store, member) = club(true, Privilege::Ordinary);
    store.script_faults(vec![true]);
    assert_eq!(
        update_pinned(&mut store, &member, &hex(0xe1), true),
        Err(Failure::Admission(AdmissionError::InsufficientPrivilege))
    );
    assert_eq!(
        update_pinned(&mut store, &member, "junk", true),
        Err(Failure::Admission(AdmissionError::InsufficientPrivilege))
    );
    assert_eq!(store.pinned_count(), 0);
}

#[test]
fn malformed_target_is_invalid_input() {
    let (mut store, admin) = club(true, Privilege::Admin);
    assert_eq!(update_pinned(&mut store, &admin, &hex(0xe1), true), Ok(()));
    assert_eq!(update_pinned(&mut store, &admin, "e2", true), Err(Failure::InvalidInput));
    assert_eq!(pinned(&store), vec![0xe1]);
}

#[test]
fn pin_saga_aborts_when_the_target_is_missing() {
    let (_, admin) = club(true, Privilege::Admin);
    let (mut saga, step) = PinSaga::begin(&admin, id(0xe1), true);
    assert!(matches!(step, Step::Ask(StoreRequest::BeginTransaction)));
    assert!(matches!(saga.advance(&StoreReply::Done), Step::Ask(StoreRequest::UnsetAllPinned)));
    assert!(matches!(
        saga.advance(&StoreReply::Matched(3)),
        Step::Ask(StoreRequest::SetPinned { pinned: true, .. })
    ));
    assert!(matches!(
        saga.advance(&StoreReply::Matched(0)),
        Step::Ask(StoreRequest::AbortTransaction)
    ));
    assert!(matches!(saga.advance(&StoreReply::Failed), Step::Done(Err(Failure::NotFound))));
}

#[test]
fn pin_saga_commits_after_both_writes() {
    let (_, admin) = club(true, Privilege::Admin);
    let (mut saga, _) = PinSaga::begin(&admin, id(0xe1), false);
    saga.advance(&StoreReply::Done);
    saga.advance(&StoreReply::Matched(0));
    assert!(matches!(
        saga.advance(&StoreReply::Matched(1)),
        Step::Ask(StoreRequest::CommitTransaction)
    ));
    assert!(matches!(saga.advance(&StoreReply::Done), Step::Done(Ok(()))));
}
