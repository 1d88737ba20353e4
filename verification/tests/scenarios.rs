use club_events::auth::admit_bearer;
use club_events::ident::DocId;
use club_events::membership::{get_multiple_events, join_event, leave_event};
use club_events::memory::MemoryStore;
use club_events::models::{Event, EventType, User, UserJoinRequest, UserType};
use club_events::pin::update_pinned;
use club_events::token::{issue, Privilege};

const KEY: &[u8] = b"club secret";
const E1: &str = "e1e1e1e1e1e1e1e1e1e1e1e1";
const E2: &str = "e2e2e2e2e2e2e2e2e2e2e2e2";
const U1: &str = "a1a1a1a1a1a1a1a1a1a1a1a1";

fn event(id: &str) -> Event {
    Event {
        id: Some(DocId::parse_str(id).unwrap()),
        name: String::from("an event"),
        location: String::from("hall"),
        date: 1_700_000_000,
        description: String::new(),
        event_type: EventType::Hackathon,
        host_id: None,
        attendees: vec![],
        image_url: Some(String::new()),
        pinned: false,
    }
}

fn user(id: &str) -> User {
    User {
        id: Some(DocId::parse_str(id).unwrap()),
        name: String::from("Ada"),
        email: String::from("ada@x.io"),
        tel: String::new(),
        password: String::new(),
        wallet: String::new(),
        admin: Some(true),
        user_type: UserType::CORETEAM,
        role: String::new(),
        stack: vec![],
        graduate: true,
        level: 0,
        department: String::new(),
        university: String::new(),
        student: String::new(),
        attending_events: vec![],
        created_at: 0,
        updated_at: 0,
    }
}

fn club() -> MemoryStore {
    let mut store = MemoryStore::new(true);
    assert!(store.insert_event(event(E1)));
    assert!(store.insert_event(event(E2)));
    assert!(store.insert_user(user(U1)));
    store
}

#[test]
fn user_joins_is_listed_leaves_and_leaves_again() {
    let mut store = club();
    let u1 = DocId::parse_str(U1).unwrap();
    let issued = issue(KEY, u1, Privilege::Ordinary, 100, 50).unwrap();
    let context = admit_bearer(&mut store, KEY, &issued.token, Privilege::Ordinary, 120).unwrap();
    let ada = UserJoinRequest {
        user_id: String::from(U1),
        name: String::from("Ada"),
        email: String::from("ada@x.io"),
    };

    assert_eq!(join_event(&mut store, &context, E1, &ada), Ok(()));

    let found = get_multiple_events(&mut store, &context, &vec![String::from(E1)]).unwrap();
    assert_eq!(found.len(), 1);
    assert!(found[0].attendees.iter().any(|a| a.user_id == u1));

    assert_eq!(leave_event(&mut store, &context, E1, U1), Ok(()));

    let found = get_multiple_events(&mut store, &context, &vec![String::from(E1)]).unwrap();
    assert_eq!(found.len(), 1);
    assert!(found[0].attendees.is_empty());

    assert_eq!(leave_event(&mut store, &context, E1, U1), Ok(()));
}

#[test]
fn second_pin_replaces_the_first() {
    let mut store = club();
    let u1 = DocId::parse_str(U1).unwrap();
    let issued = issue(KEY, u1, Privilege::Admin, 100, 50).unwrap();
    let admin = admit_bearer(&mut store, KEY, &issued.token, Privilege::Admin, 120).unwrap();

    assert_eq!(update_pinned(&mut store, &admin, E1, true), Ok(()));
    assert_eq!(update_pinned(&mut store, &admin, E2, true), Ok(()));

    assert!(!store.event(&DocId::parse_str(E1).unwrap()).unwrap().pinned);
    assert!(store.event(&DocId::parse_str(E2).unwrap()).unwrap().pinned);
    assert_eq!(store.pinned_count(), 1);
}
