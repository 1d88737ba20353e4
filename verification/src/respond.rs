use crate::auth::{suffices, AuthContext, Grant};
use crate::clock::default_datetime;
use crate::failure::StatusCategory;
use crate::ident::{id_bytes, is_id_text, DocId};
use crate::models::{
    Application, ApplicationStatus, ApplyRequest, Event, EventType, EventUpdate, EventUpdateView,
    EventView, User, UserUpdate, UserUpdateView,
};
use crate::token::Privilege;
use vstd::prelude::*;
use vstd::string::StringExecFns;

verus! {

/// `bson::oid::ObjectId::new`, handing out the bytes of the identifier. The
/// identifier is made from the clock, a random number and a counter, so
/// nothing is claimed of it.
#[verifier::external_body]
fn fresh_object_id() -> (bytes: [u8; 12]) {
    bson::oid::ObjectId::new().bytes()
}

/// A call to the store that did not complete.
#[derive(Debug, Clone, Copy, PartialEq, Eq, Structural)]
pub struct StoreFault;

/// The operations that a request layer offers.
#[derive(Debug, Clone, Copy, PartialEq, Eq, Structural)]
pub enum Route {
    SignUp,
    Login,
    Profile,
    ReadUsers,
    ReadUser,
    UpdateUser,
    UpdateUserRank,
    DropUser,
    DeleteAllUsers,
    CreateEvent,
    ReadEvent,
    ReadEvents,
    ReadUpcomingEvents,
    UpdateEvent,
    DropEvent,
    DeleteAllEvents,
    JoinEvent,
    LeaveEvent,
    GetMultipleEvents,
    UpdatePinned,
    ApplyForEvent,
    ReadApplicants,
}

impl Route {
    /// The privilege a caller must be admitted with before the operation
    /// runs; `None` for the operations open to anyone.
    pub open spec fn spec_required(self) -> Option<Privilege> {
        match self {
            Route::SignUp => None,
            Route::Login => None,
            Route::ReadUpcomingEvents => None,
            Route::ApplyForEvent => None,
            Route::ReadApplicants => None,
            Route::CreateEvent => Some(Privilege::Admin),
            Route::UpdateEvent => Some(Privilege::Admin),
            Route::DropEvent => Some(Privilege::Admin),
            Route::DeleteAllEvents => Some(Privilege::Admin),
            Route::DeleteAllUsers => Some(Privilege::Admin),
            Route::UpdatePinned => Some(Privilege::Admin),
            _ => Some(Privilege::Ordinary),
        }
    }

    /// Looks up the privilege that the operation asks for.
    #[verifier::when_used_as_spec(spec_required)]
    pub fn required(self) -> (p: Option<Privilege>)
        ensures
            p == self.spec_required(),
    {
        match self {
            Route::SignUp => None,
            Route::Login => None,
            Route::ReadUpcomingEvents => None,
            Route::ApplyForEvent => None,
            Route::ReadApplicants => None,
            Route::CreateEvent => Some(Privilege::Admin),
            Route::UpdateEvent => Some(Privilege::Admin),
            Route::DropEvent => Some(Privilege::Admin),
            Route::DeleteAllEvents => Some(Privilege::Admin),
            Route::DeleteAllUsers => Some(Privilege::Admin),
            Route::UpdatePinned => Some(Privilege::Admin),
            _ => Some(Privilege::Ordinary),
        }
    }
}

/// Reads the identifier that a request names in its path. Anything but
/// twenty-four hexadecimal digits is bad input.
pub fn target(id: &str) -> (r: Result<DocId, StatusCategory>)
    ensures
        r is Ok <==> is_id_text(id@),
        r matches Ok(oid) ==> oid@ == id_bytes(id@),
        r matches Err(e) ==> e == StatusCategory::BadInput,
{
    match DocId::parse_str(id) {
        Ok(oid) => Ok(oid),
        Err(_) => Err(StatusCategory::BadInput),
    }
}

/// What the read of one document comes to: the document, `NotFound` if
/// there is none, a server error if the read failed.
pub fn found<T>(outcome: Result<Option<T>, StoreFault>) -> (r: Result<T, StatusCategory>)
    ensures
        r == match outcome {
            Ok(Some(document)) => Ok::<T, StatusCategory>(document),
            Ok(None) => Err::<T, StatusCategory>(StatusCategory::NotFound),
            Err(_) => Err::<T, StatusCategory>(StatusCategory::TransientServerError),
        },
{
    match outcome {
        Ok(Some(document)) => Ok(document),
        Ok(None) => Err(StatusCategory::NotFound),
        Err(_) => Err(StatusCategory::TransientServerError),
    }
}

/// What a write on one document comes to: success if it reached a document,
/// `NotFound` if it reached none, a server error if it failed.
pub open spec fn reached(outcome: Result<bool, StoreFault>) -> Result<(), StatusCategory> {
    match outcome {
        Ok(true) => Ok(()),
        Ok(false) => Err(StatusCategory::NotFound),
        Err(_) => Err(StatusCategory::TransientServerError),
    }
}

/// What a deletion of one document comes to, by the number deleted.
pub open spec fn deleted_one(outcome: Result<u64, StoreFault>) -> Result<(), StatusCategory> {
    match outcome {
        Ok(n) => if n > 0 {
            Ok(())
        } else {
            Err(StatusCategory::NotFound)
        },
        Err(_) => Err(StatusCategory::TransientServerError),
    }
}

fn confirm(outcome: Result<bool, StoreFault>, words: &str) -> (r: Result<String, StatusCategory>)
    ensures
        r is Ok <==> reached(outcome) is Ok,
        r matches Ok(m) ==> m@ == words@,
        r matches Err(e) ==> reached(outcome) == Err::<(), StatusCategory>(e),
{
    match outcome {
        Ok(true) => Ok(String::from_str(words)),
        Ok(false) => Err(StatusCategory::NotFound),
        Err(_) => Err(StatusCategory::TransientServerError),
    }
}

fn confirm_deleted(outcome: Result<u64, StoreFault>, words: &str) -> (r: Result<
    String,
    StatusCategory,
>)
    ensures
        r is Ok <==> deleted_one(outcome) is Ok,
        r matches Ok(m) ==> m@ == words@,
        r matches Err(e) ==> deleted_one(outcome) == Err::<(), StatusCategory>(e),
{
    match outcome {
        Ok(n) => if n > 0 {
            Ok(String::from_str(words))
        } else {
            Err(StatusCategory::NotFound)
        },
        Err(_) => Err(StatusCategory::TransientServerError),
    }
}

/// Whether a caller admitted with the grant may run the operation.
pub open spec fn permitted(grant: Grant, route: Route) -> bool {
    match route.spec_required() {
        Some(required) => suffices(grant.privilege, required),
        None => true,
    }
}

/// Holds an admitted caller against the privilege that the operation asks
/// for: a caller who lacks it is forbidden.
pub fn permits(context: &AuthContext, route: Route) -> (r: Result<(), StatusCategory>)
    ensures
        r == if permitted(context@, route) {
            Ok::<(), StatusCategory>(())
        } else {
            Err::<(), StatusCategory>(StatusCategory::Forbidden)
        },
{
    match route.required() {
        Some(Privilege::Admin) => if context.is_admin() {
            Ok(())
        } else {
            Err(StatusCategory::Forbidden)
        },
        _ => Ok(()),
    }
}

/// The answer to an admitted caller's request for one event, from what the
/// store read.
pub fn read_event(context: &AuthContext, outcome: Result<Option<Event>, StoreFault>) -> (r: Result<
    Event,
    StatusCategory,
>)
    ensures
        r == match outcome {
            Ok(Some(event)) => Ok::<Event, StatusCategory>(event),
            Ok(None) => Err::<Event, StatusCategory>(StatusCategory::NotFound),
            Err(_) => Err::<Event, StatusCategory>(StatusCategory::TransientServerError),
        },
{
    match permits(context, Route::ReadEvent) {
        Ok(()) => found(outcome),
        Err(e) => Err(e),
    }
}

/// The answer to an admitted caller's request for one user, from what the
/// store read.
pub fn read_user(context: &AuthContext, outcome: Result<Option<User>, StoreFault>) -> (r: Result<
    User,
    StatusCategory,
>)
    ensures
        r == match outcome {
            Ok(Some(user)) => Ok::<User, StatusCategory>(user),
            Ok(None) => Err::<User, StatusCategory>(StatusCategory::NotFound),
            Err(_) => Err::<User, StatusCategory>(StatusCategory::TransientServerError),
        },
{
    match permits(context, Route::ReadUser) {
        Ok(()) => found(outcome),
        Err(e) => Err(e),
    }
}

/// What an update of an event writes: the name and the place that the
/// request carries, and nothing else of it.
pub fn event_update(updated_event: &Event) -> (update: EventUpdate)
    ensures
        update@ == (EventUpdateView { name: updated_event.name@, location: updated_event.location@ }),
{
    EventUpdate { name: updated_event.name.clone(), location: updated_event.location.clone() }
}

/// What an update of a user writes: the name, the address and the wallet
/// that the request carries, the time of the update, and the request's
/// administrator mark as the rank, if it has one. Nothing else of the
/// request is written: not its password and not its list of events.
pub fn user_update(updated_user: &User, now: u64) -> (update: UserUpdate)
    ensures
        update@ == (UserUpdateView {
            name: updated_user.name@,
            email: updated_user.email@,
            wallet: updated_user.wallet@,
            updated_at: now,
            user_rank: updated_user.admin,
        }),
{
    UserUpdate {
        name: updated_user.name.clone(),
        email: updated_user.email.clone(),
        wallet: updated_user.wallet.clone(),
        updated_at: now,
        user_rank: updated_user.admin,
    }
}

/// The answer to an update of an event, which only an administrator may
/// make; `updated` says whether the store had the event.
pub fn update_event(context: &AuthContext, updated: Result<bool, StoreFault>) -> (r: Result<
    String,
    StatusCategory,
>)
    ensures
        context@.privilege != Privilege::Admin ==> r == Err::<String, StatusCategory>(
            StatusCategory::Forbidden,
        ),
        context@.privilege == Privilege::Admin ==> {
            &&& r is Ok <==> reached(updated) is Ok
            &&& r matches Ok(m) ==> m@ == "User successfully  updated"@
            &&& r matches Err(e) ==> reached(updated) == Err::<(), StatusCategory>(e)
        },
{
    match permits(context, Route::UpdateEvent) {
        Ok(()) => confirm(updated, "User successfully  updated"),
        Err(e) => Err(e),
    }
}

/// The answer to an admitted caller's update of a user; `updated` says
/// whether the store had the user.
pub fn update_user(context: &AuthContext, updated: Result<bool, StoreFault>) -> (r: Result<
    String,
    StatusCategory,
>)
    ensures
        r is Ok <==> reached(updated) is Ok,
        r matches Ok(m) ==> m@ == "User succesfully updated"@,
        r matches Err(e) ==> reached(updated) == Err::<(), StatusCategory>(e),
{
    match permits(context, Route::UpdateUser) {
        Ok(()) => confirm(updated, "User succesfully updated"),
        Err(e) => Err(e),
    }
}

/// The answer to an admitted caller's change of a user's rank; `updated`
/// says whether the store had the user.
pub fn update_user_rank(context: &AuthContext, updated: Result<bool, StoreFault>) -> (r: Result<
    String,
    StatusCategory,
>)
    ensures
        r is Ok <==> reached(updated) is Ok,
        r matches Ok(m) ==> m@ == "User rank successfully updated"@,
        r matches Err(e) ==> reached(updated) == Err::<(), StatusCategory>(e),
{
    match permits(context, Route::UpdateUserRank) {
        Ok(()) => confirm(updated, "User rank successfully updated"),
        Err(e) => Err(e),
    }
}

/// The answer to the deletion of an event, which only an administrator may
/// ask for, from the number deleted.
pub fn drop_event(context: &AuthContext, deleted: Result<u64, StoreFault>) -> (r: Result<
    String,
    StatusCategory,
>)
    ensures
        context@.privilege != Privilege::Admin ==> r == Err::<String, StatusCategory>(
            StatusCategory::Forbidden,
        ),
        context@.privilege == Privilege::Admin ==> {
            &&& r is Ok <==> deleted_one(deleted) is Ok
            &&& r matches Ok(m) ==> m@ == "User deleted successfully"@
            &&& r matches Err(e) ==> deleted_one(deleted) == Err::<(), StatusCategory>(e)
        },
{
    match permits(context, Route::DropEvent) {
        Ok(()) => confirm_deleted(deleted, "User deleted successfully"),
        Err(e) => Err(e),
    }
}

/// The answer to an admitted caller's deletion of a user, from the number
/// deleted.
pub fn drop_user(context: &AuthContext, deleted: Result<u64, StoreFault>) -> (r: Result<
    String,
    StatusCategory,
>)
    ensures
        r is Ok <==> deleted_one(deleted) is Ok,
        r matches Ok(m) ==> m@ == "User deleted successfully!"@,
        r matches Err(e) ==> deleted_one(deleted) == Err::<(), StatusCategory>(e),
{
    match permits(context, Route::DropUser) {
        Ok(()) => confirm_deleted(deleted, "User deleted successfully!"),
        Err(e) => Err(e),
    }
}

/// The words that answer the deletion of every event, from the number
/// deleted.
pub open spec fn events_deleted(deleted: Result<u64, StoreFault>) -> Seq<char> {
    match deleted {
        Ok(n) => if n > 0 {
            "All events successfully deleted."@
        } else {
            "No events were found to delete."@
        },
        Err(_) => "Failed to delete events."@,
    }
}

/// The words that answer the deletion of every user, from the number
/// deleted.
pub open spec fn users_deleted(deleted: Result<u64, StoreFault>) -> Seq<char> {
    match deleted {
        Ok(n) => if n > 0 {
            "All users successfully deleted."@
        } else {
            "No users were found to delete."@
        },
        Err(_) => "Failed to delete users."@,
    }
}

/// The answer to the deletion of every event, which only an administrator
/// may ask for, from the number deleted.
pub fn delete_all_events(context: &AuthContext, deleted: Result<u64, StoreFault>) -> (r: Result<
    String,
    StatusCategory,
>)
    ensures
        context@.privilege != Privilege::Admin ==> r == Err::<String, StatusCategory>(
            StatusCategory::Forbidden,
        ),
        context@.privilege == Privilege::Admin ==> (r matches Ok(m) && m@ == events_deleted(
            deleted,
        )),
{
    match permits(context, Route::DeleteAllEvents) {
        Ok(()) => {},
        Err(e) => {
            return Err(e);
        },
    }
    Ok(
        match deleted {
            Ok(n) => if n > 0 {
                String::from_str("All events successfully deleted.")
            } else {
                String::from_str("No events were found to delete.")
            },
            Err(_) => String::from_str("Failed to delete events."),
        },
    )
}

/// The answer to the deletion of every user, which only an administrator
/// may ask for, from the number deleted.
pub fn delete_all_users(context: &AuthContext, deleted: Result<u64, StoreFault>) -> (r: Result<
    String,
    StatusCategory,
>)
    ensures
        context@.privilege != Privilege::Admin ==> r == Err::<String, StatusCategory>(
            StatusCategory::Forbidden,
        ),
        context@.privilege == Privilege::Admin ==> (r matches Ok(m) && m@ == users_deleted(
            deleted,
        )),
{
    match permits(context, Route::DeleteAllUsers) {
        Ok(()) => {},
        Err(e) => {
            return Err(e);
        },
    }
    Ok(
        match deleted {
            Ok(n) => if n > 0 {
                String::from_str("All users successfully deleted.")
            } else {
                String::from_str("No users were found to delete.")
            },
            Err(_) => String::from_str("Failed to delete users."),
        },
    )
}

/// What a request to create an event sends.
#[derive(Debug)]
pub struct EventRequest {
    pub name: String,
    pub location: String,
    pub date: String,
    pub host_id: Option<DocId>,
    pub description: String,
    pub event_type: EventType,
}

/// The event that a request creates: not yet stored, dated `now`, with no
/// attendee, an empty picture address, and no pin.
pub open spec fn created_event(request: &EventRequest, now: u64) -> EventView {
    EventView {
        id: None,
        name: request.name@,
        location: request.location@,
        date: now,
        description: request.description@,
        event_type: request.event_type,
        host_id: request.host_id,
        attendees: Seq::empty(),
        image_url: Some(Seq::empty()),
        pinned: false,
    }
}

/// Makes the event to store out of a request and the time.
pub fn new_event(request: &EventRequest, now: u64) -> (event: Event)
    ensures
        event@ == created_event(request, now),
{
    let event = Event {
        id: None,
        name: request.name.clone(),
        location: request.location.clone(),
        date: now,
        description: request.description.clone(),
        event_type: request.event_type,
        host_id: request.host_id,
        attendees: Vec::new(),
        image_url: Some(String::new()),
        pinned: false,
    };
    assert(event@.attendees =~= Seq::empty());
    event
}

/// Decides on a request to create an event, which only an administrator
/// may make. `existing` says whether the store already holds an event of the
/// same name at the same place.
///
/// Anyone but an administrator is forbidden. An administrator's request is
/// turned down in words when there is such an event or the lookup failed;
/// else it becomes the event to store, dated with the time of the call.
pub fn create_event(
    context: &AuthContext,
    new_event: &EventRequest,
    existing: Result<bool, StoreFault>,
) -> (r: Result<Result<Event, String>, StatusCategory>)
    ensures
        context@.privilege != Privilege::Admin ==> (r matches Err(e) && e
            == StatusCategory::Forbidden),
        context@.privilege == Privilege::Admin ==> (r matches Ok(decision) && match existing {
            Ok(false) => decision matches Ok(event) && event@ == created_event(
                new_event,
                event.date,
            ) && event.date <= i64::MAX,
            Ok(true) => decision matches Err(m) && m@
                == "Event with the same name and location already exists."@,
            Err(_) => decision matches Err(m) && m@ == "Error checking for existing events."@,
        }),
{
    match permits(context, Route::CreateEvent) {
        Ok(()) => {},
        Err(e) => {
            return Err(e);
        },
    }
    Ok(
        match existing {
            Ok(false) => Ok(self::new_event(new_event, default_datetime())),
            Ok(true) => Err(
                String::from_str("Event with the same name and location already exists."),
            ),
            Err(_) => Err(String::from_str("Error checking for existing events.")),
        },
    )
}

/// The answer once the new event has gone to the store.
pub fn event_stored(inserted: Result<(), StoreFault>) -> (m: String)
    ensures
        m@ == match inserted {
            Ok(_) => "Event successfully created"@,
            Err(_) => "Failed to create event"@,
        },
{
    match inserted {
        Ok(_) => String::from_str("Event successfully created"),
        Err(_) => String::from_str("Failed to create event"),
    }
}

impl ApplyRequest {
    /// Reads the user and the event that an application names. If either
    /// is malformed the application is bad input.
    pub fn targets(&self) -> (r: Result<(DocId, DocId), StatusCategory>)
        ensures
            r is Ok <==> is_id_text(self.user_id@) && is_id_text(self.event_id@),
            r matches Ok(ids) ==> ids.0@ == id_bytes(self.user_id@) && ids.1@ == id_bytes(
                self.event_id@,
            ),
            r matches Err(e) ==> e == StatusCategory::BadInput,
    {
        let user_id = match target(self.user_id.as_str()) {
            Ok(id) => id,
            Err(e) => {
                return Err(e);
            },
        };
        let event_id = match target(self.event_id.as_str()) {
            Ok(id) => id,
            Err(e) => {
                return Err(e);
            },
        };
        Ok((user_id, event_id))
    }
}

/// Decides on an application. `existing` says whether the store already
/// holds an application of the user to the event.
///
/// A failed lookup is a server error and a second application a conflict;
/// else the application to store is pending and carries a fresh identifier.
pub fn apply_for_event(user_id: DocId, event_id: DocId, existing: Result<bool, StoreFault>) -> (r:
    Result<Application, StatusCategory>)
    ensures
        match existing {
            Ok(false) => r matches Ok(application) && application.user_id == user_id
                && application.event_id == event_id && application.status
                == ApplicationStatus::Pending,
            Ok(true) => r matches Err(e) && e == StatusCategory::Conflict,
            Err(_) => r matches Err(e) && e == StatusCategory::TransientServerError,
        },
{
    match existing {
        Ok(false) => Ok(
            Application {
                id: DocId::from_bytes(fresh_object_id()),
                user_id,
                event_id,
                status: ApplicationStatus::Pending,
            },
        ),
        Ok(true) => Err(StatusCategory::Conflict),
        Err(_) => Err(StatusCategory::TransientServerError),
    }
}

/// What a write of a new document comes to.
pub fn stored(inserted: Result<(), StoreFault>) -> (r: Result<(), StatusCategory>)
    ensures
        r == match inserted {
            Ok(_) => Ok::<(), StatusCategory>(()),
            Err(_) => Err::<(), StatusCategory>(StatusCategory::TransientServerError),
        },
{
    match inserted {
        Ok(_) => Ok(()),
        Err(_) => Err(StatusCategory::TransientServerError),
    }
}

} // verus!
