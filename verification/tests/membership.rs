use club_events::auth::{admit_bearer, AuthContext};
use club_events::failure::Failure;
use club_events::ident::DocId;
use club_events::membership::{
    events_read, get_multiple_events, join_event, leave_event, select_ids, wanted, JoinSaga,
    LeaveSaga,
};
use club_events::respond::StoreFault;
use club_events::memory::MemoryStore;
use club_events::models::{Attendee, Event, EventType, User, UserJoinRequest, UserType};
use club_events::store::{Step, StoreReply, StoreRequest};
use club_events::token::{issue, Privilege};

const KEY: &[u8] = b"club secret";

fn id(n: u8) -> DocId {
    DocId::from_bytes([n; 12])
}

fn hex(n: u8) -> String {
    format!("{:02x}", n).repeat(12)
}

fn event(n: u8) -> Event {
    Event {
        id: Some(id(n)),
        name: format!("event {}", n),
        location: String::from("hall"),
        date: 1_700_000_000,
        description: String::new(),
        event_type: EventType::Meetup,
        host_id: None,
        attendees: vec![],
        image_url: None,
        pinned: false,
    }
}

fn user(n: u8) -> User {
    User {
        id: Some(id(n)),
        name: format!("user {}", n),
        email: format!("user{}@x.io", n),
        tel: String::new(),
        password: String::new(),
        wallet: String::new(),
        admin: Some(false),
        user_type: UserType::RANDOM,
        role: String::new(),
        stack: vec![],
        graduate: false,
        level: 0,
        department: String::new(),
        university: String::new(),
        student: String::new(),
        attending_events: vec![],
        created_at: 0,
        updated_at: 0,
    }
}

fn request(n: u8, name: &str, email: &str) -> UserJoinRequest {
    UserJoinRequest { user_id: hex(n), name: name.to_string(), email: email.to_string() }
}

/// A store with events 0xe1 and 0xe2 and users 1 and 2, and user 1 admitted.
fn club() -> (MemoryStore, AuthContext) {
    let mut store = MemoryStore::new(true);
    assert!(store.insert_event(event(0xe1)));
    assert!(store.insert_event(event(0xe2)));
    assert!(store.insert_user(user(1)));
    assert!(store.insert_user(user(2)));
    let issued = issue(KEY, id(1), Privilege::Ordinary, 100, 50).unwrap();
    let context = admit_bearer(&mut store, KEY, &issued.token, Privilege::Ordinary, 120).unwrap();
    (store, context)
}

fn attendee_ids(store: &MemoryStore, n: u8) -> Vec<DocId> {
    store.event(&id(n)).unwrap().attendees.iter().map(|a| a.user_id).collect()
}

fn memberships(store: &MemoryStore, n: u8) -> Vec<DocId> {
    store.user(&id(n)).unwrap().attending_events
}

#[test]
fn join_links_both_sides() {
    let (mut store, context) = club();
    assert_eq!(join_event(&mut store, &context, &hex(0xe1), &request(1, "Ada", "ada@x.io")), Ok(()));
    let event = store.event(&id(0xe1)).unwrap();
    assert_eq!(event.attendees.len(), 1);
    assert_eq!(event.attendees[0].user_id, id(1));
    assert_eq!(event.attendees[0].name, "Ada");
    assert_eq!(event.attendees[0].email, "ada@x.io");
    assert_eq!(memberships(&store, 1), vec![id(0xe1)]);
    assert!(attendee_ids(&store, 0xe2).is_empty());
    assert!(memberships(&store, 2).is_empty());
}

#[test]
fn join_twice_changes_nothing_more() {
    let (mut store, context) = club();
    assert_eq!(join_event(&mut store, &context, &hex(0xe1), &request(1, "Ada", "ada@x.io")), Ok(()));
    assert_eq!(join_event(&mut store, &context, &hex(0xe1), &request(1, "Ada", "ada@x.io")), Ok(()));
    assert_eq!(attendee_ids(&store, 0xe1), vec![id(1)]);
    assert_eq!(memberships(&store, 1), vec![id(0xe1)]);
}

#[test]
fn join_again_under_another_name_keeps_the_first_record() {
    let (mut store, context) = club();
    assert_eq!(join_event(&mut store, &context, &hex(0xe1), &request(1, "Ada", "ada@x.io")), Ok(()));
    assert_eq!(join_event(&mut store, &context, &hex(0xe1), &request(1, "Eve", "eve@x.io")), Ok(()));
    let event = store.event(&id(0xe1)).unwrap();
    assert_eq!(event.attendees.len(), 1);
    assert_eq!(event.attendees[0].name, "Ada");
}

#[test]
fn two_users_join_one_event() {
    let (mut store, context) = club();
    assert_eq!(join_event(&mut store, &context, &hex(0xe1), &request(1, "Ada", "ada@x.io")), Ok(()));
    assert_eq!(join_event(&mut store, &context, &hex(0xe1), &request(2, "Bob", "bob@x.io")), Ok(()));
    assert_eq!(join_event(&mut store, &context, &hex(0xe2), &request(2, "Bob", "bob@x.io")), Ok(()));
    assert_eq!(attendee_ids(&store, 0xe1), vec![id(1), id(2)]);
    assert_eq!(attendee_ids(&store, 0xe2), vec![id(2)]);
    assert_eq!(memberships(&store, 1), vec![id(0xe1)]);
    assert_eq!(memberships(&store, 2), vec![id(0xe1), id(0xe2)]);
}

#[test]
fn join_of_a_missing_event_is_not_found() {
    let (mut store, context) = club();
    assert_eq!(
        join_event(&mut store, &context, &hex(0xe9), &request(1, "Ada", "ada@x.io")),
        Err(Failure::NotFound)
    );
    assert!(memberships(&store, 1).is_empty());
}

#[test]
fn join_with_malformed_identifiers_is_invalid_input() {
    let (mut store, context) = club();
    assert_eq!(
        join_event(&mut store, &context, "e1", &request(1, "Ada", "ada@x.io")),
        Err(Failure::InvalidInput)
    );
    let bad_user = UserJoinRequest {
        user_id: String::from("not an id"),
        name: String::from("Ada"),
        email: String::from("ada@x.io"),
    };
    assert_eq!(join_event(&mut store, &context, &hex(0xe1), &bad_user), Err(Failure::InvalidInput));
    assert_eq!(join_event(&mut store, &context, &hex(0xe9), &bad_user), Err(Failure::InvalidInput));
    assert!(attendee_ids(&store, 0xe1).is_empty());
}

#[test]
fn join_by_an_unknown_user_still_records_the_attendee() {
    let (mut store, context) = club();
    assert_eq!(join_event(&mut store, &context, &hex(0xe1), &request(9, "Zed", "zed@x.io")), Ok(()));
    assert_eq!(attendee_ids(&store, 0xe1), vec![id(9)]);
}

#[test]
fn failed_read_ends_the_join_without_a_write() {
    let (mut store, context) = club();
    store.script_faults(vec![true]);
    assert_eq!(
        join_event(&mut store, &context, &hex(0xe1), &request(1, "Ada", "ada@x.io")),
        Err(Failure::PersistenceError)
    );
    assert!(attendee_ids(&store, 0xe1).is_empty());
    assert!(memberships(&store, 1).is_empty());
}

#[test]
fn failed_event_write_ends_the_join_without_a_change() {
    let (mut store, context) = club();
    store.script_faults(vec![false, true]);
    assert_eq!(
        join_event(&mut store, &context, &hex(0xe1), &request(1, "Ada", "ada@x.io")),
        Err(Failure::PersistenceError)
    );
    assert!(attendee_ids(&store, 0xe1).is_empty());
    assert!(memberships(&store, 1).is_empty());
}

#[test]
fn failed_user_write_is_compensated() {
    let (mut store, context) = club();
    assert_eq!(join_event(&mut store, &context, &hex(0xe1), &request(2, "Bob", "bob@x.io")), Ok(()));
    store.script_faults(vec![false, false, true]);
    assert_eq!(
        join_event(&mut store, &context, &hex(0xe1), &request(1, "Ada", "ada@x.io")),
        Err(Failure::PersistenceError)
    );
    assert_eq!(attendee_ids(&store, 0xe1), vec![id(2)]);
    assert!(memberships(&store, 1).is_empty());
    assert_eq!(memberships(&store, 2), vec![id(0xe1)]);
    assert_eq!(join_event(&mut store, &context, &hex(0xe1), &request(1, "Ada", "ada@x.io")), Ok(()));
    assert_eq!(attendee_ids(&store, 0xe1), vec![id(2), id(1)]);
    assert_eq!(memberships(&store, 1), vec![id(0xe1)]);
}

#[test]
fn failed_user_write_of_a_second_join_takes_nothing_off() {
    let (mut store, context) = club();
    assert_eq!(join_event(&mut store, &context, &hex(0xe1), &request(1, "Ada", "ada@x.io")), Ok(()));
    store.script_faults(vec![false, false, true, true]);
    assert_eq!(
        join_event(&mut store, &context, &hex(0xe1), &request(1, "Ada", "ada@x.io")),
        Err(Failure::PersistenceError)
    );
    assert_eq!(attendee_ids(&store, 0xe1), vec![id(1)]);
    assert_eq!(memberships(&store, 1), vec![id(0xe1)]);
    assert_eq!(
        join_event(&mut store, &context, &hex(0xe1), &request(1, "Ada", "ada@x.io")),
        Err(Failure::PersistenceError)
    );
    assert_eq!(join_event(&mut store, &context, &hex(0xe1), &request(1, "Ada", "ada@x.io")), Ok(()));
    assert_eq!(attendee_ids(&store, 0xe1), vec![id(1)]);
    assert_eq!(memberships(&store, 1), vec![id(0xe1)]);
}

#[test]
fn second_join_changes_nothing_however_it_ends() {
    for script in [vec![], vec![true], vec![false, true], vec![false, false, true]] {
        let (mut store, context) = club();
        let ada = request(1, "Ada", "ada@x.io");
        assert_eq!(join_event(&mut store, &context, &hex(0xe1), &ada), Ok(()));
        assert_eq!(join_event(&mut store, &context, &hex(0xe1), &request(2, "Bob", "b@x.io")), Ok(()));
        store.script_faults(script);
        let _ = join_event(&mut store, &context, &hex(0xe1), &ada);
        assert_eq!(attendee_ids(&store, 0xe1), vec![id(1), id(2)]);
        assert_eq!(memberships(&store, 1), vec![id(0xe1)]);
        assert_eq!(memberships(&store, 2), vec![id(0xe1)]);
    }
}

#[test]
fn failed_compensation_is_a_partial_failure() {
    let (mut store, context) = club();
    store.script_faults(vec![false, false, true, true]);
    assert_eq!(
        join_event(&mut store, &context, &hex(0xe1), &request(1, "Ada", "ada@x.io")),
        Err(Failure::PartialFailure)
    );
    assert_eq!(attendee_ids(&store, 0xe1), vec![id(1)]);
    assert!(memberships(&store, 1).is_empty());
    assert_eq!(leave_event(&mut store, &context, &hex(0xe1), &hex(1)), Ok(()));
    assert!(attendee_ids(&store, 0xe1).is_empty());
}

#[test]
fn leave_unlinks_both_sides() {
    let (mut store, context) = club();
    assert_eq!(join_event(&mut store, &context, &hex(0xe1), &request(1, "Ada", "ada@x.io")), Ok(()));
    assert_eq!(join_event(&mut store, &context, &hex(0xe2), &request(1, "Ada", "ada@x.io")), Ok(()));
    assert_eq!(join_event(&mut store, &context, &hex(0xe1), &request(2, "Bob", "bob@x.io")), Ok(()));
    assert_eq!(leave_event(&mut store, &context, &hex(0xe1), &hex(1)), Ok(()));
    assert_eq!(attendee_ids(&store, 0xe1), vec![id(2)]);
    assert_eq!(attendee_ids(&store, 0xe2), vec![id(1)]);
    assert_eq!(memberships(&store, 1), vec![id(0xe2)]);
    assert_eq!(memberships(&store, 2), vec![id(0xe1)]);
    let bob = &store.event(&id(0xe1)).unwrap().attendees[0];
    assert_eq!(bob.name, "Bob");
    assert_eq!(bob.email, "bob@x.io");
}

#[test]
fn leave_without_join_is_a_no_op() {
    let (mut store, context) = club();
    assert_eq!(join_event(&mut store, &context, &hex(0xe1), &request(2, "Bob", "bob@x.io")), Ok(()));
    assert_eq!(leave_event(&mut store, &context, &hex(0xe1), &hex(1)), Ok(()));
    assert_eq!(attendee_ids(&store, 0xe1), vec![id(2)]);
    assert_eq!(memberships(&store, 2), vec![id(0xe1)]);
    assert!(memberships(&store, 1).is_empty());
}

#[test]
fn leave_of_a_missing_event_is_not_found() {
    let (mut store, context) = club();
    assert_eq!(leave_event(&mut store, &context, &hex(0xe9), &hex(1)), Err(Failure::NotFound));
}

#[test]
fn leave_with_malformed_identifiers_is_invalid_input() {
    let (mut store, context) = club();
    assert_eq!(leave_event(&mut store, &context, "xyz", &hex(1)), Err(Failure::InvalidInput));
    assert_eq!(leave_event(&mut store, &context, &hex(0xe1), ""), Err(Failure::InvalidInput));
}

#[test]
fn failed_user_write_of_a_leave_puts_the_record_back() {
    let (mut store, context) = club();
    assert_eq!(join_event(&mut store, &context, &hex(0xe1), &request(1, "Ada", "ada@x.io")), Ok(()));
    assert_eq!(join_event(&mut store, &context, &hex(0xe1), &request(2, "Bob", "bob@x.io")), Ok(()));
    store.script_faults(vec![false, false, true]);
    assert_eq!(
        leave_event(&mut store, &context, &hex(0xe1), &hex(1)),
        Err(Failure::PersistenceError)
    );
    assert_eq!(attendee_ids(&store, 0xe1), vec![id(2), id(1)]);
    let ada = &store.event(&id(0xe1)).unwrap().attendees[1];
    assert_eq!(ada.name, "Ada");
    assert_eq!(ada.email, "ada@x.io");
    assert_eq!(memberships(&store, 1), vec![id(0xe1)]);
}

#[test]
fn failed_restore_of_a_leave_is_a_partial_failure() {
    let (mut store, context) = club();
    assert_eq!(join_event(&mut store, &context, &hex(0xe1), &request(1, "Ada", "ada@x.io")), Ok(()));
    store.script_faults(vec![false, false, true, true]);
    assert_eq!(leave_event(&mut store, &context, &hex(0xe1), &hex(1)), Err(Failure::PartialFailure));
    assert!(attendee_ids(&store, 0xe1).is_empty());
    assert_eq!(memberships(&store, 1), vec![id(0xe1)]);
}

#[test]
fn failed_user_write_of_a_leave_without_a_record_restores_nothing() {
    let (mut store, context) = club();
    store.script_faults(vec![false, false, true, true]);
    assert_eq!(
        leave_event(&mut store, &context, &hex(0xe1), &hex(1)),
        Err(Failure::PersistenceError)
    );
    assert!(attendee_ids(&store, 0xe1).is_empty());
    store.script_faults(vec![]);
    assert_eq!(leave_event(&mut store, &context, &hex(0xe1), &hex(1)), Ok(()));
}

fn sides_agree(store: &MemoryStore, event: u8, user: u8) -> bool {
    attendee_ids(store, event).contains(&id(user)) == memberships(store, user).contains(&id(event))
}

#[test]
fn sides_agree_after_every_outcome_but_a_partial_failure() {
    let scripts = [
        vec![],
        vec![true],
        vec![false, true],
        vec![false, false, true],
        vec![false, false, true, true],
    ];
    for first in &scripts {
        for second in &scripts {
            let (mut store, context) = club();
            let ada = request(1, "Ada", "ada@x.io");
            assert_eq!(join_event(&mut store, &context, &hex(0xe2), &ada), Ok(()));
            store.script_faults(first.clone());
            let joined = join_event(&mut store, &context, &hex(0xe1), &ada);
            assert_eq!(joined == Err(Failure::PartialFailure), first.len() == 4);
            if joined != Err(Failure::PartialFailure) {
                assert!(sides_agree(&store, 0xe1, 1));
                store.script_faults(second.clone());
                let left = leave_event(&mut store, &context, &hex(0xe1), &hex(1));
                if left != Err(Failure::PartialFailure) {
                    assert!(sides_agree(&store, 0xe1, 1));
                }
            }
            assert!(sides_agree(&store, 0xe2, 1));
            assert!(sides_agree(&store, 0xe1, 2));
            assert!(sides_agree(&store, 0xe2, 2));
        }
    }
}

#[test]
fn joined_user_is_listed_once_on_each_side() {
    let (mut store, context) = club();
    for name in ["Ada", "Eve", "Ada"] {
        assert_eq!(join_event(&mut store, &context, &hex(0xe1), &request(1, name, "a@x.io")), Ok(()));
        let on_event = attendee_ids(&store, 0xe1).iter().filter(|u| **u == id(1)).count();
        let on_user = memberships(&store, 1).iter().filter(|e| **e == id(0xe1)).count();
        assert_eq!(on_event, 1);
        assert_eq!(on_user, 1);
    }
}

#[test]
fn leave_undoes_join() {
    let (mut store, context) = club();
    assert_eq!(join_event(&mut store, &context, &hex(0xe1), &request(2, "Bob", "bob@x.io")), Ok(()));
    assert_eq!(join_event(&mut store, &context, &hex(0xe2), &request(1, "Ada", "ada@x.io")), Ok(()));
    let before_event = format!("{:?}", store.event(&id(0xe1)));
    let before_user = format!("{:?}", store.user(&id(1)));
    assert_eq!(join_event(&mut store, &context, &hex(0xe1), &request(1, "Ada", "ada@x.io")), Ok(()));
    assert_ne!(format!("{:?}", store.event(&id(0xe1))), before_event);
    assert_eq!(leave_event(&mut store, &context, &hex(0xe1), &hex(1)), Ok(()));
    assert_eq!(format!("{:?}", store.event(&id(0xe1))), before_event);
    assert_eq!(format!("{:?}", store.user(&id(1))), before_user);
}

#[test]
fn malformed_identifiers_are_passed_over() {
    let ids = vec![String::from("nope"), hex(0xe2), String::new(), hex(0xe1), hex(0xe1) + "0"];
    assert_eq!(select_ids(&ids), vec![id(0xe2), id(0xe1)]);
    assert!(select_ids(&vec![String::from("nope")]).is_empty());
    assert!(select_ids(&vec![]).is_empty());
}

#[test]
fn get_many_returns_what_is_found_in_store_order() {
    let (mut store, context) = club();
    let ids = vec![hex(0xe2), String::from("junk"), hex(0xe9), hex(0xe1)];
    let found = get_multiple_events(&mut store, &context, &ids).unwrap();
    let names: Vec<&str> = found.iter().map(|e| e.name.as_str()).collect();
    assert_eq!(names, vec!["event 225", "event 226"]);
    let found = get_multiple_events(&mut store, &context, &vec![hex(0xe9)]).unwrap();
    assert!(found.is_empty());
}

#[test]
fn get_many_without_a_valid_identifier_is_invalid_input() {
    let (mut store, context) = club();
    assert_eq!(
        get_multiple_events(&mut store, &context, &vec![]).unwrap_err(),
        Failure::InvalidInput
    );
    assert_eq!(
        get_multiple_events(&mut store, &context, &vec![String::from("junk")]).unwrap_err(),
        Failure::InvalidInput
    );
}

#[test]
fn read_of_several_documents_is_handed_on_or_a_persistence_error() {
    assert_eq!(events_read(Ok(vec![1, 2, 3])), Ok(vec![1, 2, 3]));
    assert_eq!(events_read::<u8>(Ok(vec![])), Ok(vec![]));
    assert_eq!(events_read::<u8>(Err(StoreFault)), Err(Failure::PersistenceError));
    assert_eq!(wanted(&vec![String::from("x"), hex(3)]), Ok(vec![id(3)]));
    assert_eq!(wanted(&vec![String::from("x")]), Err(Failure::InvalidInput));
}

#[test]
fn get_many_on_a_failed_read_is_a_persistence_error() {
    let (mut store, context) = club();
    store.script_faults(vec![true]);
    assert_eq!(
        get_multiple_events(&mut store, &context, &vec![hex(0xe1)]).unwrap_err(),
        Failure::PersistenceError
    );
    assert_eq!(get_multiple_events(&mut store, &context, &vec![hex(0xe1)]).unwrap().len(), 1);
}

#[test]
fn join_saga_walks_through_its_requests() {
    let attendee =
        Attendee { user_id: id(1), name: String::from("Ada"), email: String::from("ada@x.io") };
    let (mut saga, step) = JoinSaga::begin(id(0xe1), attendee);
    assert!(matches!(step, Step::Ask(StoreRequest::FindEvent { .. })));
    assert!(matches!(
        saga.advance(&StoreReply::Present(None)),
        Step::Ask(StoreRequest::AddAttendee { .. })
    ));
    assert!(matches!(
        saga.advance(&StoreReply::Matched(1)),
        Step::Ask(StoreRequest::AddMembership { .. })
    ));
    assert!(matches!(
        saga.advance(&StoreReply::Failed),
        Step::Ask(StoreRequest::RemoveAttendee { .. })
    ));
    assert!(matches!(
        saga.advance(&StoreReply::Matched(1)),
        Step::Done(Err(Failure::PersistenceError))
    ));
    assert!(matches!(
        saga.advance(&StoreReply::Matched(1)),
        Step::Done(Err(Failure::PersistenceError))
    ));
}

#[test]
fn join_saga_takes_nothing_off_that_it_did_not_add() {
    let attendee =
        Attendee { user_id: id(1), name: String::from("Ada"), email: String::from("ada@x.io") };
    let (mut saga, _) = JoinSaga::begin(id(0xe1), attendee.clone());
    assert!(matches!(
        saga.advance(&StoreReply::Present(Some(attendee))),
        Step::Ask(StoreRequest::AddAttendee { .. })
    ));
    assert!(!saga.fresh);
    assert!(matches!(
        saga.advance(&StoreReply::Matched(1)),
        Step::Ask(StoreRequest::AddMembership { .. })
    ));
    assert!(matches!(
        saga.advance(&StoreReply::Failed),
        Step::Done(Err(Failure::PersistenceError))
    ));
}

#[test]
fn leave_saga_puts_back_the_record_it_read() {
    let attendee =
        Attendee { user_id: id(1), name: String::from("Ada"), email: String::from("ada@x.io") };
    let (mut saga, step) = LeaveSaga::begin(id(0xe1), id(1));
    assert!(matches!(step, Step::Ask(StoreRequest::FindEvent { .. })));
    assert!(matches!(
        saga.advance(&StoreReply::Present(Some(attendee))),
        Step::Ask(StoreRequest::RemoveAttendee { .. })
    ));
    assert!(matches!(
        saga.advance(&StoreReply::Matched(1)),
        Step::Ask(StoreRequest::RemoveMembership { .. })
    ));
    match saga.advance(&StoreReply::Failed) {
        Step::Ask(StoreRequest::AddAttendee { event_id, attendee }) => {
            assert_eq!(event_id, id(0xe1));
            assert_eq!(attendee.user_id, id(1));
            assert_eq!(attendee.name, "Ada");
            assert_eq!(attendee.email, "ada@x.io");
        }
        other => panic!("unexpected step {:?}", other),
    }
    assert!(matches!(
        saga.advance(&StoreReply::Failed),
        Step::Done(Err(Failure::PartialFailure))
    ));
}

#[test]
fn event_gone_before_the_write_is_not_found() {
    let attendee =
        Attendee { user_id: id(1), name: String::from("Ada"), email: String::from("ada@x.io") };
    let (mut saga, _) = JoinSaga::begin(id(0xe1), attendee);
    saga.advance(&StoreReply::Present(None));
    assert!(matches!(saga.advance(&StoreReply::Matched(0)), Step::Done(Err(Failure::NotFound))));
    let (mut saga, _) = LeaveSaga::begin(id(0xe1), id(1));
    saga.advance(&StoreReply::Present(None));
    assert!(matches!(saga.advance(&StoreReply::Matched(0)), Step::Done(Err(Failure::NotFound))));
}
