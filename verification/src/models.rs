use crate::ident::DocId;
use vstd::prelude::*;

verus! {

/// Whether an application to an event is still open, or how it was settled.
#[derive(Debug, Clone, Copy, PartialEq, Eq, Structural)]
pub enum ApplicationStatus {
    Pending,
    Accepted,
    Rejected,
}

/// The kind of gathering an event is.
#[derive(Debug, Clone, Copy, PartialEq, Eq, Structural)]
pub enum EventType {
    Hackathon,
    Meetup,
    Workshop,
}

/// The group a user signs up as; it decides which fields a sign-up may carry.
#[derive(Debug, Clone, Copy, PartialEq, Eq, Structural)]
pub enum UserType {
    CORETEAM,
    HACKER,
    RANDOM,
}

/// The clubs a student can belong to.
#[derive(Debug, Clone, Copy, PartialEq, Eq, Structural)]
pub enum StudentClub {
    CORETEAM,
    HACKER,
    RANDOM,
}

/// A user's application to an event.
#[derive(Debug, Clone, Copy)]
pub struct Application {
    pub id: DocId,
    pub user_id: DocId,
    pub event_id: DocId,
    pub status: ApplicationStatus,
}

/// The body of a request to apply: both identifiers still as text.
#[derive(Debug)]
pub struct ApplyRequest {
    pub user_id: String,
    pub event_id: String,
}

/// The body of a request to join an event: the user's identifier as text,
/// and the name and address to record beside it.
#[derive(Debug)]
pub struct UserJoinRequest {
    pub user_id: String,
    pub name: String,
    pub email: String,
}

/// One entry of an event's attendee list: a snapshot of the user taken when
/// they joined. Within one event the user identifier is the key.
#[derive(Debug)]
pub struct Attendee {
    pub user_id: DocId,
    pub name: String,
    pub email: String,
}

/// What an `Attendee` holds.
pub struct AttendeeView {
    pub user_id: DocId,
    pub name: Seq<char>,
    pub email: Seq<char>,
}

impl View for Attendee {
    type V = AttendeeView;

    open spec fn view(&self) -> AttendeeView {
        AttendeeView { user_id: self.user_id, name: self.name@, email: self.email@ }
    }
}

impl Clone for Attendee {
    fn clone(&self) -> (r: Attendee)
        ensures
            r@ == self@,
    {
        Attendee { user_id: self.user_id, name: self.name.clone(), email: self.email.clone() }
    }
}

/// The test that an attendee record passes unless it is the user's.
pub open spec fn not_of(user_id: DocId) -> spec_fn(AttendeeView) -> bool {
    |a: AttendeeView| a.user_id != user_id
}

/// The test that an attendee record passes when it is the user's.
pub open spec fn of_user(user_id: DocId) -> spec_fn(AttendeeView) -> bool {
    |a: AttendeeView| a.user_id == user_id
}

/// The test that an identifier passes when it is the given one.
pub open spec fn same_as(id: DocId) -> spec_fn(DocId) -> bool {
    |e: DocId| e == id
}

/// The test that an identifier passes unless it is the given one.
pub open spec fn other_than(id: DocId) -> spec_fn(DocId) -> bool {
    |e: DocId| e != id
}

/// The attendee records of a list, in its order.
pub open spec fn attendee_views(list: Seq<Attendee>) -> Seq<AttendeeView> {
    list.map_values(|a: Attendee| a@)
}

/// The texts of a list of strings, in its order.
pub open spec fn texts(list: Seq<String>) -> Seq<Seq<char>> {
    list.map_values(|s: String| s@)
}

/// The text of an optional string.
pub open spec fn opt_text(s: Option<String>) -> Option<Seq<char>> {
    match s {
        Some(t) => Some(t@),
        None => None,
    }
}

/// A copy of a list of attendee records.
pub fn clone_attendees(list: &Vec<Attendee>) -> (r: Vec<Attendee>)
    ensures
        attendee_views(r@) == attendee_views(list@),
{
    let mut out: Vec<Attendee> = Vec::new();
    let mut i: usize = 0;
    while i < list.len()
        invariant
            i <= list.len(),
            out.len() == i,
            forall|k: int| 0 <= k < i ==> (#[trigger] out[k])@ == list[k]@,
        decreases list.len() - i,
    {
        out.push(list[i].clone());
        i += 1;
    }
    assert(attendee_views(out@) =~= attendee_views(list@));
    out
}

/// A copy of a list of strings.
pub fn clone_texts(list: &Vec<String>) -> (r: Vec<String>)
    ensures
        texts(r@) == texts(list@),
{
    let mut out: Vec<String> = Vec::new();
    let mut i: usize = 0;
    while i < list.len()
        invariant
            i <= list.len(),
            out.len() == i,
            forall|k: int| 0 <= k < i ==> (#[trigger] out[k])@ == list[k]@,
        decreases list.len() - i,
    {
        out.push(list[i].clone());
        i += 1;
    }
    assert(texts(out@) =~= texts(list@));
    out
}

/// A copy of an optional string.
pub fn clone_opt_text(s: &Option<String>) -> (r: Option<String>)
    ensures
        opt_text(r) == opt_text(*s),
{
    match s {
        Some(t) => Some(t.clone()),
        None => None,
    }
}

/// An event as the store keeps it. `id` is `None` only before the store has
/// taken the event in.
#[derive(Debug)]
pub struct Event {
    pub id: Option<DocId>,
    pub name: String,
    pub location: String,
    /// Seconds since the Unix epoch.
    pub date: u64,
    pub description: String,
    pub event_type: EventType,
    pub host_id: Option<DocId>,
    pub attendees: Vec<Attendee>,
    pub image_url: Option<String>,
    pub pinned: bool,
}

/// What an `Event` holds.
pub struct EventView {
    pub id: Option<DocId>,
    pub name: Seq<char>,
    pub location: Seq<char>,
    pub date: u64,
    pub description: Seq<char>,
    pub event_type: EventType,
    pub host_id: Option<DocId>,
    pub attendees: Seq<AttendeeView>,
    pub image_url: Option<Seq<char>>,
    pub pinned: bool,
}

impl View for Event {
    type V = EventView;

    open spec fn view(&self) -> EventView {
        EventView {
            id: self.id,
            name: self.name@,
            location: self.location@,
            date: self.date,
            description: self.description@,
            event_type: self.event_type,
            host_id: self.host_id,
            attendees: attendee_views(self.attendees@),
            image_url: opt_text(self.image_url),
            pinned: self.pinned,
        }
    }
}

impl Clone for Event {
    fn clone(&self) -> (r: Event)
        ensures
            r@ == self@,
    {
        Event {
            id: self.id,
            name: self.name.clone(),
            location: self.location.clone(),
            date: self.date,
            description: self.description.clone(),
            event_type: self.event_type,
            host_id: self.host_id,
            attendees: clone_attendees(&self.attendees),
            image_url: clone_opt_text(&self.image_url),
            pinned: self.pinned,
        }
    }
}

impl EventView {
    /// Whether the user is on the attendee list.
    pub open spec fn has_attendee(self, user_id: DocId) -> bool {
        exists|k: int| 0 <= k < self.attendees.len() && (#[trigger] self.attendees[k]).user_id == user_id
    }

    /// The event after a set-semantics add: a user already on the list keeps
    /// the record they have, anyone else is appended.
    pub open spec fn with_attendee(self, attendee: AttendeeView) -> EventView {
        if self.has_attendee(attendee.user_id) {
            self
        } else {
            EventView { attendees: self.attendees.push(attendee), ..self }
        }
    }

    /// The event with every record of the user taken off the list.
    pub open spec fn without_attendee(self, user_id: DocId) -> EventView {
        EventView { attendees: self.attendees.filter(not_of(user_id)), ..self }
    }

    /// The event with its pin set as given.
    pub open spec fn with_pinned(self, pinned: bool) -> EventView {
        EventView { pinned, ..self }
    }
}

/// A user as the store keeps it. `id` is `None` only before the store has
/// taken the user in.
#[derive(Debug)]
pub struct User {
    pub id: Option<DocId>,
    pub name: String,
    pub email: String,
    pub tel: String,
    /// The password's hash, never the password.
    pub password: String,
    pub wallet: String,
    pub admin: Option<bool>,
    pub user_type: UserType,
    pub role: String,
    pub stack: Vec<String>,
    pub graduate: bool,
    pub level: i32,
    pub department: String,
    pub university: String,
    pub student: String,
    pub attending_events: Vec<DocId>,
    /// Seconds since the Unix epoch.
    pub created_at: u64,
    /// Seconds since the Unix epoch.
    pub updated_at: u64,
}

/// What a `User` holds.
pub struct UserView {
    pub id: Option<DocId>,
    pub name: Seq<char>,
    pub email: Seq<char>,
    pub tel: Seq<char>,
    pub password: Seq<char>,
    pub wallet: Seq<char>,
    pub admin: Option<bool>,
    pub user_type: UserType,
    pub role: Seq<char>,
    pub stack: Seq<Seq<char>>,
    pub graduate: bool,
    pub level: i32,
    pub department: Seq<char>,
    pub university: Seq<char>,
    pub student: Seq<char>,
    pub attending_events: Seq<DocId>,
    pub created_at: u64,
    pub updated_at: u64,
}

impl View for User {
    type V = UserView;

    open spec fn view(&self) -> UserView {
        UserView {
            id: self.id,
            name: self.name@,
            email: self.email@,
            tel: self.tel@,
            password: self.password@,
            wallet: self.wallet@,
            admin: self.admin,
            user_type: self.user_type,
            role: self.role@,
            stack: texts(self.stack@),
            graduate: self.graduate,
            level: self.level,
            department: self.department@,
            university: self.university@,
            student: self.student@,
            attending_events: self.attending_events@,
            created_at: self.created_at,
            updated_at: self.updated_at,
        }
    }
}

impl Clone for User {
    fn clone(&self) -> (r: User)
        ensures
            r@ == self@,
    {
        User {
            id: self.id,
            name: self.name.clone(),
            email: self.email.clone(),
            tel: self.tel.clone(),
            password: self.password.clone(),
            wallet: self.wallet.clone(),
            admin: self.admin,
            user_type: self.user_type,
            role: self.role.clone(),
            stack: clone_texts(&self.stack),
            graduate: self.graduate,
            level: self.level,
            department: self.department.clone(),
            university: self.university.clone(),
            student: self.student.clone(),
            attending_events: self.attending_events.clone(),
            created_at: self.created_at,
            updated_at: self.updated_at,
        }
    }
}

impl UserView {
    /// Whether the user's list names the event.
    pub open spec fn attends(self, event_id: DocId) -> bool {
        self.attending_events.contains(event_id)
    }

    /// The user after a set-semantics add of the event.
    pub open spec fn with_event(self, event_id: DocId) -> UserView {
        if self.attends(event_id) {
            self
        } else {
            UserView { attending_events: self.attending_events.push(event_id), ..self }
        }
    }

    /// The user with the event taken off their list.
    pub open spec fn without_event(self, event_id: DocId) -> UserView {
        UserView { attending_events: self.attending_events.filter(other_than(event_id)), ..self }
    }
}

/// What an update of a user writes: the name, the address, the wallet and
/// the time of the update, and a rank where the request gave one. The rank
/// goes to a field of the stored document that a `User` does not hold, so
/// it changes nothing that a `User` shows.
#[derive(Debug)]
pub struct UserUpdate {
    pub name: String,
    pub email: String,
    pub wallet: String,
    /// Seconds since the Unix epoch.
    pub updated_at: u64,
    pub user_rank: Option<bool>,
}

/// What a `UserUpdate` holds.
pub struct UserUpdateView {
    pub name: Seq<char>,
    pub email: Seq<char>,
    pub wallet: Seq<char>,
    pub updated_at: u64,
    pub user_rank: Option<bool>,
}

impl View for UserUpdate {
    type V = UserUpdateView;

    open spec fn view(&self) -> UserUpdateView {
        UserUpdateView {
            name: self.name@,
            email: self.email@,
            wallet: self.wallet@,
            updated_at: self.updated_at,
            user_rank: self.user_rank,
        }
    }
}

/// What an update of an event writes: the name and the place.
#[derive(Debug)]
pub struct EventUpdate {
    pub name: String,
    pub location: String,
}

/// What an `EventUpdate` holds.
pub struct EventUpdateView {
    pub name: Seq<char>,
    pub location: Seq<char>,
}

impl View for EventUpdate {
    type V = EventUpdateView;

    open spec fn view(&self) -> EventUpdateView {
        EventUpdateView { name: self.name@, location: self.location@ }
    }
}

impl UserView {
    /// The user after an update: the name, the address, the wallet and the
    /// time of the last update are the update's, and all else is as it was,
    /// the password's hash, the rank and the list of events among it.
    pub open spec fn with_update(self, update: UserUpdateView) -> UserView {
        UserView {
            name: update.name,
            email: update.email,
            wallet: update.wallet,
            updated_at: update.updated_at,
            ..self
        }
    }

    /// The user with the administrator's mark set as given.
    pub open spec fn with_admin(self, admin: bool) -> UserView {
        UserView { admin: Some(admin), ..self }
    }
}

impl EventView {
    /// The event after an update: the name and the place are the update's,
    /// and all else is as it was, the attendee list and the pin among it.
    pub open spec fn with_update(self, update: EventUpdateView) -> EventView {
        EventView { name: update.name, location: update.location, ..self }
    }
}

} // verus!
