use club_events::auth::{admit_bearer, AuthContext};
use club_events::clock::{clamp_seconds, default_datetime};
use club_events::config::{
    bounded_decimal, collection_name, listen_port, token_lifetime, DEFAULT_LIFETIME, DEFAULT_PORT,
};
use club_events::failure::StatusCategory;
use club_events::ident::DocId;
use club_events::memory::MemoryStore;
use club_events::models::{ApplicationStatus, ApplyRequest, Event, EventType, UserType};
use club_events::respond::{
    apply_for_event, create_event, delete_all_events, delete_all_users, drop_event, drop_user,
    event_stored, found, new_event, permits, read_event, read_user, stored, target, update_event,
    update_user, update_user_rank, EventRequest, Route, StoreFault,
};
use club_events::signup::{new_user, SignUPDto};
use club_events::token::{issue, Privilege};

fn admitted_as(privilege: Privilege) -> AuthContext {
    let subject = DocId::from_bytes([7; 12]);
    let dto = SignUPDto {
        id: None,
        name: String::from("Ada"),
        email: String::from("ada@x.io"),
        tel: String::new(),
        password: String::new(),
        wallet: String::new(),
        admin: None,
        user_type: UserType::RANDOM,
        role: String::new(),
        stack: vec![],
        graduate: false,
        level: 0,
        department: String::new(),
        university: String::new(),
        student: String::new(),
        attending_events: vec![],
        created_at: 0,
        updated_at: 0,
    };
    let mut user = new_user(dto, String::from("hash"), 1);
    user.id = Some(subject);
    let mut store = MemoryStore::new(true);
    assert!(store.insert_user(user));
    let issued = issue(b"key", subject, privilege, 100, 50).unwrap();
    admit_bearer(&mut store, b"key", &issued.token, privilege, 120).unwrap()
}

fn request() -> EventRequest {
    EventRequest {
        name: String::from("Rust night"),
        location: String::from("Lab 2"),
        date: String::from("ignored"),
        host_id: Some(DocId::from_bytes([4; 12])),
        description: String::from("talks"),
        event_type: EventType::Meetup,
    }
}

#[test]
fn path_identifier_is_read_or_bad_input() {
    assert_eq!(target("0000000000000000000000ff").unwrap().bytes[11], 255);
    assert_eq!(target("ff").unwrap_err(), StatusCategory::BadInput);
    assert_eq!(target("zz00000000000000000000ff").unwrap_err(), StatusCategory::BadInput);
}

#[test]
fn read_of_one_document_maps_to_its_class() {
    assert_eq!(found(Ok(Some(7))), Ok(7));
    assert_eq!(found::<u8>(Ok(None)), Err(StatusCategory::NotFound));
    assert_eq!(found::<u8>(Err(StoreFault)), Err(StatusCategory::TransientServerError));
    let member = admitted_as(Privilege::Ordinary);
    let event: Event = new_event(&request(), 3);
    assert_eq!(read_event(&member, Ok(Some(event))).unwrap().name, "Rust night");
    assert_eq!(read_event(&member, Ok(None)).unwrap_err(), StatusCategory::NotFound);
    assert_eq!(
        read_event(&member, Err(StoreFault)).unwrap_err(),
        StatusCategory::TransientServerError
    );
    assert_eq!(read_user(&member, Ok(None)).unwrap_err(), StatusCategory::NotFound);
    assert_eq!(
        read_user(&member, Err(StoreFault)).unwrap_err(),
        StatusCategory::TransientServerError
    );
}

#[test]
fn updates_answer_in_their_own_words() {
    let admin = admitted_as(Privilege::Admin);
    assert_eq!(update_event(&admin, Ok(true)).unwrap(), "User successfully  updated");
    assert_eq!(update_user(&admin, Ok(true)).unwrap(), "User succesfully updated");
    assert_eq!(update_user_rank(&admin, Ok(true)).unwrap(), "User rank successfully updated");
    for update in [update_event, update_user, update_user_rank] {
        assert_eq!(update(&admin, Ok(false)).unwrap_err(), StatusCategory::NotFound);
        assert_eq!(
            update(&admin, Err(StoreFault)).unwrap_err(),
            StatusCategory::TransientServerError
        );
    }
    let member = admitted_as(Privilege::Ordinary);
    assert_eq!(update_user(&member, Ok(true)).unwrap(), "User succesfully updated");
    assert_eq!(update_user_rank(&member, Ok(true)).unwrap(), "User rank successfully updated");
}

#[test]
fn only_an_administrator_changes_events_or_deletes_all() {
    let member = admitted_as(Privilege::Ordinary);
    assert_eq!(update_event(&member, Ok(true)).unwrap_err(), StatusCategory::Forbidden);
    assert_eq!(update_event(&member, Err(StoreFault)).unwrap_err(), StatusCategory::Forbidden);
    assert_eq!(drop_event(&member, Ok(1)).unwrap_err(), StatusCategory::Forbidden);
    assert_eq!(delete_all_events(&member, Ok(1)).unwrap_err(), StatusCategory::Forbidden);
    assert_eq!(delete_all_users(&member, Ok(1)).unwrap_err(), StatusCategory::Forbidden);
    assert_eq!(
        create_event(&member, &request(), Ok(false)).unwrap_err(),
        StatusCategory::Forbidden
    );
    assert_eq!(permits(&member, Route::CreateEvent), Err(StatusCategory::Forbidden));
    assert_eq!(permits(&member, Route::UpdatePinned), Err(StatusCategory::Forbidden));
    assert_eq!(permits(&member, Route::JoinEvent), Ok(()));
    assert_eq!(permits(&member, Route::SignUp), Ok(()));
    let admin = admitted_as(Privilege::Admin);
    for route in [Route::CreateEvent, Route::DropEvent, Route::JoinEvent, Route::Login] {
        assert_eq!(permits(&admin, route), Ok(()));
    }
}

#[test]
fn deletions_answer_by_the_number_deleted() {
    let admin = admitted_as(Privilege::Admin);
    assert_eq!(drop_event(&admin, Ok(1)).unwrap(), "User deleted successfully");
    assert_eq!(drop_user(&admin, Ok(1)).unwrap(), "User deleted successfully!");
    assert_eq!(drop_user(&admin, Ok(2)).unwrap(), "User deleted successfully!");
    for drop in [drop_event, drop_user] {
        assert_eq!(drop(&admin, Ok(0)).unwrap_err(), StatusCategory::NotFound);
        assert_eq!(drop(&admin, Err(StoreFault)).unwrap_err(), StatusCategory::TransientServerError);
    }
    assert_eq!(delete_all_events(&admin, Ok(3)).unwrap(), "All events successfully deleted.");
    assert_eq!(delete_all_events(&admin, Ok(0)).unwrap(), "No events were found to delete.");
    assert_eq!(delete_all_events(&admin, Err(StoreFault)).unwrap(), "Failed to delete events.");
    assert_eq!(delete_all_users(&admin, Ok(3)).unwrap(), "All users successfully deleted.");
    assert_eq!(delete_all_users(&admin, Ok(0)).unwrap(), "No users were found to delete.");
    assert_eq!(delete_all_users(&admin, Err(StoreFault)).unwrap(), "Failed to delete users.");
    let member = admitted_as(Privilege::Ordinary);
    assert_eq!(drop_user(&member, Ok(1)).unwrap(), "User deleted successfully!");
}

#[test]
fn created_event_starts_empty_and_unpinned() {
    let event = new_event(&request(), 1234);
    assert_eq!(event.id, None);
    assert_eq!(event.name, "Rust night");
    assert_eq!(event.location, "Lab 2");
    assert_eq!(event.date, 1234);
    assert_eq!(event.description, "talks");
    assert_eq!(event.event_type, EventType::Meetup);
    assert_eq!(event.host_id, Some(DocId::from_bytes([4; 12])));
    assert!(event.attendees.is_empty());
    assert_eq!(event.image_url, Some(String::new()));
    assert!(!event.pinned);
}

#[test]
fn create_event_is_turned_down_when_one_exists() {
    let admin = admitted_as(Privilege::Admin);
    let event = create_event(&admin, &request(), Ok(false)).unwrap().unwrap();
    assert_eq!(event.name, "Rust night");
    assert!(event.date > 1_600_000_000);
    assert_eq!(
        create_event(&admin, &request(), Ok(true)).unwrap().unwrap_err(),
        "Event with the same name and location already exists."
    );
    assert_eq!(
        create_event(&admin, &request(), Err(StoreFault)).unwrap().unwrap_err(),
        "Error checking for existing events."
    );
    assert_eq!(event_stored(Ok(())), "Event successfully created");
    assert_eq!(event_stored(Err(StoreFault)), "Failed to create event");
}

#[test]
fn application_names_two_identifiers() {
    let good = ApplyRequest {
        user_id: String::from("111111111111111111111111"),
        event_id: String::from("222222222222222222222222"),
    };
    let (user_id, event_id) = good.targets().unwrap();
    assert_eq!(user_id, DocId::from_bytes([0x11; 12]));
    assert_eq!(event_id, DocId::from_bytes([0x22; 12]));
    let bad_user = ApplyRequest { user_id: String::from("1"), event_id: good.event_id.clone() };
    assert_eq!(bad_user.targets().unwrap_err(), StatusCategory::BadInput);
    let bad_event = ApplyRequest { user_id: good.user_id.clone(), event_id: String::new() };
    assert_eq!(bad_event.targets().unwrap_err(), StatusCategory::BadInput);
}

#[test]
fn application_is_pending_and_freshly_named() {
    let user_id = DocId::from_bytes([0x11; 12]);
    let event_id = DocId::from_bytes([0x22; 12]);
    let first = apply_for_event(user_id, event_id, Ok(false)).unwrap();
    let second = apply_for_event(user_id, event_id, Ok(false)).unwrap();
    assert_eq!(first.user_id, user_id);
    assert_eq!(first.event_id, event_id);
    assert_eq!(first.status, ApplicationStatus::Pending);
    assert_ne!(first.id, second.id);
    assert_eq!(
        apply_for_event(user_id, event_id, Ok(true)).unwrap_err(),
        StatusCategory::Conflict
    );
    assert_eq!(
        apply_for_event(user_id, event_id, Err(StoreFault)).unwrap_err(),
        StatusCategory::TransientServerError
    );
    assert_eq!(stored(Ok(())), Ok(()));
    assert_eq!(stored(Err(StoreFault)), Err(StatusCategory::TransientServerError));
}

#[test]
fn each_route_asks_for_its_privilege() {
    for route in [
        Route::CreateEvent,
        Route::UpdateEvent,
        Route::DropEvent,
        Route::DeleteAllEvents,
        Route::DeleteAllUsers,
        Route::UpdatePinned,
    ] {
        assert_eq!(route.required(), Some(Privilege::Admin));
    }
    for route in [
        Route::Profile,
        Route::ReadUsers,
        Route::ReadUser,
        Route::UpdateUser,
        Route::UpdateUserRank,
        Route::DropUser,
        Route::ReadEvent,
        Route::ReadEvents,
        Route::JoinEvent,
        Route::LeaveEvent,
        Route::GetMultipleEvents,
    ] {
        assert_eq!(route.required(), Some(Privilege::Ordinary));
    }
    for route in [
        Route::SignUp,
        Route::Login,
        Route::ReadUpcomingEvents,
        Route::ApplyForEvent,
        Route::ReadApplicants,
    ] {
        assert_eq!(route.required(), None);
    }
}

#[test]
fn port_defaults_and_parses() {
    assert_eq!(DEFAULT_PORT, 8000);
    assert_eq!(listen_port(None), Some(8000));
    assert_eq!(listen_port(Some("8080")), Some(8080));
    assert_eq!(listen_port(Some("0")), Some(0));
    assert_eq!(listen_port(Some("65535")), Some(65535));
    assert_eq!(listen_port(Some("+443")), Some(443));
    assert_eq!(listen_port(Some("00000000000080")), Some(80));
}

#[test]
fn port_that_is_no_port_is_refused() {
    for text in ["", "+", "-1", "65536", "99999999999", "80 ", " 80", "8o", "++1", "1+", "٣"] {
        assert_eq!(listen_port(Some(text)), None);
        assert_eq!(text.parse::<u16>().ok(), None);
    }
    for text in ["8080", "0", "65535", "+443", "00000000000080"] {
        assert_eq!(listen_port(Some(text)), text.parse::<u16>().ok());
    }
}

#[test]
fn lifetime_defaults_and_parses() {
    assert_eq!(DEFAULT_LIFETIME, 3600);
    assert_eq!(token_lifetime(None), Some(3600));
    assert_eq!(token_lifetime(Some("60")), Some(60));
    assert_eq!(token_lifetime(Some("0")), Some(0));
    assert_eq!(token_lifetime(Some("18446744073709551615")), Some(u64::MAX));
    assert_eq!(token_lifetime(Some("18446744073709551616")), None);
    assert_eq!(token_lifetime(Some("18446744073709551620")), None);
    assert_eq!(token_lifetime(Some("99999999999999999999999")), None);
    assert_eq!(token_lifetime(Some("1h")), None);
    assert_eq!(token_lifetime(Some("")), None);
    for text in ["60", "+7", "18446744073709551615", "18446744073709551616", "", "-", "1_0"] {
        assert_eq!(token_lifetime(Some(text)), text.parse::<u64>().ok());
    }
}

#[test]
fn numbers_are_read_up_to_their_limit() {
    assert_eq!(bounded_decimal("10", 10), Some(10));
    assert_eq!(bounded_decimal("11", 10), None);
    assert_eq!(bounded_decimal("0011", 11), Some(11));
    assert_eq!(bounded_decimal("0", 0), Some(0));
    assert_eq!(bounded_decimal("1", 0), None);
}

#[test]
fn collection_is_named_after_the_last_segment() {
    assert_eq!(collection_name("club::models::user::User"), "User");
    assert_eq!(collection_name("User"), "User");
    assert_eq!(collection_name(""), "");
    assert_eq!(collection_name("a::"), "");
    assert_eq!(collection_name("::b"), "b");
    assert_eq!(collection_name("a:b"), "a:b");
    assert_eq!(collection_name("a:::b"), ":b");
    assert_eq!(collection_name(":::"), ":");
    assert_eq!(collection_name("::::"), "");
    assert_eq!(collection_name("é::ü"), "ü");
    for path in ["a::b::c", "a:::b", ":::", "::::", "a::", "x", "", ":", "::"] {
        assert_eq!(collection_name(path), path.split("::").last().unwrap());
    }
}

#[test]
fn clock_reading_before_the_epoch_counts_as_the_epoch() {
    assert_eq!(clamp_seconds(-1), 0);
    assert_eq!(clamp_seconds(i64::MIN), 0);
    assert_eq!(clamp_seconds(0), 0);
    assert_eq!(clamp_seconds(1_700_000_000), 1_700_000_000);
    assert_eq!(clamp_seconds(i64::MAX), i64::MAX as u64);
    assert!(default_datetime() > 1_600_000_000);
    assert!(default_datetime() <= i64::MAX as u64);
}
