use club_events::auth::{admit_bearer, AuthContext};
use club_events::failure::StatusCategory;
use club_events::ident::DocId;
use club_events::memory::MemoryStore;
use club_events::models::{Attendee, Event, EventType, User, UserType};
use club_events::respond::{event_update, user_update};
use club_events::token::{issue, Privilege};
use club_events::update::{update_stored_event, update_stored_rank, update_stored_user};

const KEY: &[u8] = b"club secret";

fn id(n: u8) -> DocId {
    DocId::from_bytes([n; 12])
}

fn hex(n: u8) -> String {
    format!("{:02x}", n).repeat(12)
}

fn attendee(n: u8) -> Attendee {
    Attendee { user_id: id(n), name: format!("user {}", n), email: format!("user{}@x.io", n) }
}

fn event(n: u8) -> Event {
    Event {
        id: Some(id(n)),
        name: format!("event {}", n),
        location: String::from("hall"),
        date: 1_700_000_000,
        description: String::from("talks"),
        event_type: EventType::Meetup,
        host_id: Some(id(1)),
        attendees: vec![attendee(1), attendee(2)],
        image_url: Some(String::from("pic")),
        pinned: true,
    }
}

fn user(n: u8) -> User {
    User {
        id: Some(id(n)),
        name: format!("user {}", n),
        email: format!("user{}@x.io", n),
        tel: String::from("555"),
        password: String::from("stored hash"),
        wallet: String::from("0xold"),
        admin: Some(false),
        user_type: UserType::HACKER,
        role: String::from("backend"),
        stack: vec![String::from("rust")],
        graduate: true,
        level: 0,
        department: String::new(),
        university: String::new(),
        student: String::from("s"),
        attending_events: vec![id(0xe1)],
        created_at: 10,
        updated_at: 20,
    }
}

/// A store with events 0xe1 and 0xe2 and users 1 and 2, and user 1 admitted.
fn club(privilege: Privilege) -> (MemoryStore, AuthContext) {
    let mut store = MemoryStore::new(true);
    assert!(store.insert_event(event(0xe1)));
    assert!(store.insert_event(event(0xe2)));
    assert!(store.insert_user(user(1)));
    assert!(store.insert_user(user(2)));
    let issued = issue(KEY, id(1), privilege, 100, 50).unwrap();
    let context = admit_bearer(&mut store, KEY, &issued.token, privilege, 120).unwrap();
    (store, context)
}

fn request() -> User {
    let mut sent = user(9);
    sent.name = String::from("Grace");
    sent.email = String::from("grace@x.io");
    sent.wallet = String::from("0xnew");
    sent.password = String::from("another password");
    sent.admin = Some(true);
    sent.attending_events = vec![id(0xe2), id(0xe2)];
    sent.tel = String::from("999");
    sent.role = String::from("frontend");
    sent
}

#[test]
fn user_update_carries_four_fields_and_the_rank() {
    let update = user_update(&request(), 77);
    assert_eq!(update.name, "Grace");
    assert_eq!(update.email, "grace@x.io");
    assert_eq!(update.wallet, "0xnew");
    assert_eq!(update.updated_at, 77);
    assert_eq!(update.user_rank, Some(true));
    let mut plain = request();
    plain.admin = None;
    assert_eq!(user_update(&plain, 1).user_rank, None);
}

#[test]
fn event_update_carries_the_name_and_the_place() {
    let mut sent = event(9);
    sent.name = String::from("Rust night");
    sent.location = String::from("Lab 2");
    let update = event_update(&sent);
    assert_eq!(update.name, "Rust night");
    assert_eq!(update.location, "Lab 2");
}

#[test]
fn update_of_a_user_writes_four_fields_and_keeps_the_rest() {
    let (mut store, context) = club(Privilege::Ordinary);
    let before_other = format!("{:?}", store.user(&id(2)));
    let before_events = format!("{:?} {:?}", store.event(&id(0xe1)), store.event(&id(0xe2)));
    assert_eq!(
        update_stored_user(&mut store, &context, &hex(1), &request(), 500).unwrap(),
        "User succesfully updated"
    );
    let stored = store.user(&id(1)).unwrap();
    assert_eq!(stored.name, "Grace");
    assert_eq!(stored.email, "grace@x.io");
    assert_eq!(stored.wallet, "0xnew");
    assert_eq!(stored.updated_at, 500);
    assert_eq!(stored.id, Some(id(1)));
    assert_eq!(stored.password, "stored hash");
    assert_eq!(stored.admin, Some(false));
    assert_eq!(stored.attending_events, vec![id(0xe1)]);
    assert_eq!(stored.tel, "555");
    assert_eq!(stored.role, "backend");
    assert_eq!(stored.stack, vec![String::from("rust")]);
    assert_eq!(stored.created_at, 10);
    assert_eq!(format!("{:?}", store.user(&id(2))), before_other);
    assert_eq!(
        format!("{:?} {:?}", store.event(&id(0xe1)), store.event(&id(0xe2))),
        before_events
    );
}

#[test]
fn update_of_a_missing_user_changes_nothing() {
    let (mut store, context) = club(Privilege::Ordinary);
    let before = format!("{:?} {:?}", store.user(&id(1)), store.user(&id(2)));
    assert_eq!(
        update_stored_user(&mut store, &context, &hex(9), &request(), 500).unwrap_err(),
        StatusCategory::NotFound
    );
    assert_eq!(
        update_stored_user(&mut store, &context, "nine", &request(), 500).unwrap_err(),
        StatusCategory::BadInput
    );
    store.script_faults(vec![true]);
    assert_eq!(
        update_stored_user(&mut store, &context, &hex(1), &request(), 500).unwrap_err(),
        StatusCategory::TransientServerError
    );
    assert_eq!(format!("{:?} {:?}", store.user(&id(1)), store.user(&id(2))), before);
}

#[test]
fn update_of_an_event_writes_two_fields_and_keeps_the_rest() {
    let (mut store, admin) = club(Privilege::Admin);
    let before_other = format!("{:?}", store.event(&id(0xe2)));
    let before_users = format!("{:?} {:?}", store.user(&id(1)), store.user(&id(2)));
    let mut sent = event(9);
    sent.name = String::from("Rust night");
    sent.location = String::from("Lab 2");
    sent.attendees = vec![attendee(5)];
    sent.pinned = false;
    sent.description = String::from("other");
    assert_eq!(
        update_stored_event(&mut store, &admin, &hex(0xe1), &sent).unwrap(),
        "User successfully  updated"
    );
    let stored = store.event(&id(0xe1)).unwrap();
    assert_eq!(stored.name, "Rust night");
    assert_eq!(stored.location, "Lab 2");
    assert_eq!(stored.id, Some(id(0xe1)));
    assert!(stored.pinned);
    assert_eq!(stored.description, "talks");
    assert_eq!(stored.date, 1_700_000_000);
    assert_eq!(stored.attendees.len(), 2);
    assert_eq!(stored.attendees[0].user_id, id(1));
    assert_eq!(stored.attendees[1].user_id, id(2));
    assert_eq!(format!("{:?}", store.event(&id(0xe2))), before_other);
    assert_eq!(format!("{:?} {:?}", store.user(&id(1)), store.user(&id(2))), before_users);
}

#[test]
fn update_of_an_event_is_refused_or_fails_without_a_change() {
    let (mut store, member) = club(Privilege::Ordinary);
    let before = format!("{:?} {:?}", store.event(&id(0xe1)), store.event(&id(0xe2)));
    assert_eq!(
        update_stored_event(&mut store, &member, &hex(0xe1), &event(9)).unwrap_err(),
        StatusCategory::Forbidden
    );
    assert_eq!(
        update_stored_event(&mut store, &member, "bad", &event(9)).unwrap_err(),
        StatusCategory::Forbidden
    );
    let (mut store, admin) = club(Privilege::Admin);
    assert_eq!(
        update_stored_event(&mut store, &admin, "bad", &event(9)).unwrap_err(),
        StatusCategory::BadInput
    );
    assert_eq!(
        update_stored_event(&mut store, &admin, &hex(0xe9), &event(9)).unwrap_err(),
        StatusCategory::NotFound
    );
    store.script_faults(vec![true]);
    assert_eq!(
        update_stored_event(&mut store, &admin, &hex(0xe1), &event(9)).unwrap_err(),
        StatusCategory::TransientServerError
    );
    assert_eq!(format!("{:?} {:?}", store.event(&id(0xe1)), store.event(&id(0xe2))), before);
}

#[test]
fn update_of_a_rank_writes_the_mark_alone() {
    let (mut store, context) = club(Privilege::Ordinary);
    assert_eq!(
        update_stored_rank(&mut store, &context, &hex(2), true).unwrap(),
        "User rank successfully updated"
    );
    let mut expected = user(2);
    expected.admin = Some(true);
    assert_eq!(format!("{:?}", store.user(&id(2)).unwrap()), format!("{:?}", expected));
    assert_eq!(format!("{:?}", store.user(&id(1)).unwrap()), format!("{:?}", user(1)));
    assert_eq!(
        update_stored_rank(&mut store, &context, &hex(9), true).unwrap_err(),
        StatusCategory::NotFound
    );
    assert_eq!(
        update_stored_rank(&mut store, &context, "", true).unwrap_err(),
        StatusCategory::BadInput
    );
    store.script_faults(vec![true]);
    assert_eq!(
        update_stored_rank(&mut store, &context, &hex(2), false).unwrap_err(),
        StatusCategory::TransientServerError
    );
    assert_eq!(store.user(&id(2)).unwrap().admin, Some(true));
}
