use crate::failure::Failure;
use crate::ident::DocId;
use crate::ledger::{listed, RevocationEntry};
use crate::models::{
    attendee_views, not_of, other_than, Attendee, AttendeeView, Event, EventUpdateView, EventView,
    User, UserUpdateView, UserView,
};
use crate::seqs::{lemma_filter_member, lemma_filter_order};
use crate::token::TokenId;
use vstd::prelude::*;

verus! {

/// One call to the store. Each is atomic on a single document, or a control
/// call of a transaction.
#[derive(Debug)]
pub enum StoreRequest {
    /// Read an event, and the record of one user on its attendee list.
    FindEvent { event_id: DocId, user_id: DocId },
    /// Read a user.
    FindUser { user_id: DocId },
    /// Look a token up in the revocation ledger.
    FindRevocation { token_id: TokenId },
    /// Add a record to an event's attendee list, unless the user is on it.
    AddAttendee { event_id: DocId, attendee: Attendee },
    /// Take a user off an event's attendee list.
    RemoveAttendee { event_id: DocId, user_id: DocId },
    /// Add an event to a user's list, unless it is on it.
    AddMembership { user_id: DocId, event_id: DocId },
    /// Take an event off a user's list.
    RemoveMembership { user_id: DocId, event_id: DocId },
    /// Clear the pin of every event that has it.
    UnsetAllPinned,
    /// Set the pin of one event.
    SetPinned { event_id: DocId, pinned: bool },
    BeginTransaction,
    CommitTransaction,
    AbortTransaction,
}

/// What a `StoreRequest` holds.
pub enum StoreRequestView {
    FindEvent { event_id: DocId, user_id: DocId },
    FindUser { user_id: DocId },
    FindRevocation { token_id: TokenId },
    AddAttendee { event_id: DocId, attendee: AttendeeView },
    RemoveAttendee { event_id: DocId, user_id: DocId },
    AddMembership { user_id: DocId, event_id: DocId },
    RemoveMembership { user_id: DocId, event_id: DocId },
    UnsetAllPinned,
    SetPinned { event_id: DocId, pinned: bool },
    BeginTransaction,
    CommitTransaction,
    AbortTransaction,
}

impl View for StoreRequest {
    type V = StoreRequestView;

    open spec fn view(&self) -> StoreRequestView {
        match *self {
            StoreRequest::FindEvent { event_id, user_id } => StoreRequestView::FindEvent {
                event_id,
                user_id,
            },
            StoreRequest::FindUser { user_id } => StoreRequestView::FindUser { user_id },
            StoreRequest::FindRevocation { token_id } => StoreRequestView::FindRevocation {
                token_id,
            },
            StoreRequest::AddAttendee { event_id, attendee } => StoreRequestView::AddAttendee {
                event_id,
                attendee: attendee@,
            },
            StoreRequest::RemoveAttendee { event_id, user_id } => StoreRequestView::RemoveAttendee {
                event_id,
                user_id,
            },
            StoreRequest::AddMembership { user_id, event_id } => StoreRequestView::AddMembership {
                user_id,
                event_id,
            },
            StoreRequest::RemoveMembership {
                user_id,
                event_id,
            } => StoreRequestView::RemoveMembership { user_id, event_id },
            StoreRequest::UnsetAllPinned => StoreRequestView::UnsetAllPinned,
            StoreRequest::SetPinned { event_id, pinned } => StoreRequestView::SetPinned {
                event_id,
                pinned,
            },
            StoreRequest::BeginTransaction => StoreRequestView::BeginTransaction,
            StoreRequest::CommitTransaction => StoreRequestView::CommitTransaction,
            StoreRequest::AbortTransaction => StoreRequestView::AbortTransaction,
        }
    }
}

/// What the store answered.
#[derive(Debug)]
pub enum StoreReply {
    /// The call did not complete; nothing is known of its effect.
    Failed,
    /// A read found nothing.
    Absent,
    /// A read found the document. After `FindEvent`, the record of the user
    /// on the event's attendee list, if there is one.
    Present(Option<Attendee>),
    /// A write completed, and matched this many documents.
    Matched(u64),
    /// A transaction control call completed.
    Done,
}

/// What a `StoreReply` holds.
pub enum StoreReplyView {
    Failed,
    Absent,
    Present(Option<AttendeeView>),
    Matched(nat),
    Done,
}

impl View for StoreReply {
    type V = StoreReplyView;

    open spec fn view(&self) -> StoreReplyView {
        match *self {
            StoreReply::Failed => StoreReplyView::Failed,
            StoreReply::Absent => StoreReplyView::Absent,
            StoreReply::Present(Some(a)) => StoreReplyView::Present(Some(a@)),
            StoreReply::Present(None) => StoreReplyView::Present(None),
            StoreReply::Matched(n) => StoreReplyView::Matched(n as nat),
            StoreReply::Done => StoreReplyView::Done,
        }
    }
}

/// The events of a list, in its order.
pub open spec fn event_views(list: Seq<Event>) -> Seq<EventView> {
    list.map_values(|e: Event| e@)
}

/// The users of a list, in its order.
pub open spec fn user_views(list: Seq<User>) -> Seq<UserView> {
    list.map_values(|u: User| u@)
}

/// The first event of the list with the identifier.
pub open spec fn find_event(events: Seq<EventView>, event_id: DocId) -> Option<EventView>
    decreases events.len(),
{
    if events.len() == 0 {
        None
    } else if events[0].id == Some(event_id) {
        Some(events[0])
    } else {
        find_event(events.drop_first(), event_id)
    }
}

/// The first user of the list with the identifier.
pub open spec fn find_user(users: Seq<UserView>, user_id: DocId) -> Option<UserView>
    decreases users.len(),
{
    if users.len() == 0 {
        None
    } else if users[0].id == Some(user_id) {
        Some(users[0])
    } else {
        find_user(users.drop_first(), user_id)
    }
}

/// The first record of the user on an attendee list.
pub open spec fn record_of(attendees: Seq<AttendeeView>, user_id: DocId) -> Option<AttendeeView>
    decreases attendees.len(),
{
    if attendees.len() == 0 {
        None
    } else if attendees[0].user_id == user_id {
        Some(attendees[0])
    } else {
        record_of(attendees.drop_first(), user_id)
    }
}

/// Whether some event of the list has the identifier.
pub open spec fn holds_event(events: Seq<EventView>, event_id: DocId) -> bool {
    exists|i: int| 0 <= i < events.len() && (#[trigger] events[i]).id == Some(event_id)
}

/// Whether some user of the list has the identifier.
pub open spec fn holds_user(users: Seq<UserView>, user_id: DocId) -> bool {
    exists|i: int| 0 <= i < users.len() && (#[trigger] users[i]).id == Some(user_id)
}

/// A search for an event finds one exactly when the list holds one, and
/// what it finds is an event of the list with the identifier.
pub proof fn lemma_find_event(events: Seq<EventView>, event_id: DocId)
    ensures
        find_event(events, event_id) is Some <==> holds_event(events, event_id),
        find_event(events, event_id) matches Some(e) ==> e.id == Some(event_id) && events.contains(
            e,
        ),
    decreases events.len(),
{
    if events.len() > 0 {
        let rest = events.drop_first();
        lemma_find_event(rest, event_id);
        if events[0].id != Some(event_id) {
            if holds_event(events, event_id) {
                let i = choose|i: int|
                    0 <= i < events.len() && (#[trigger] events[i]).id == Some(event_id);
                assert(rest[i - 1].id == Some(event_id));
            }
            if holds_event(rest, event_id) {
                let i = choose|i: int|
                    0 <= i < rest.len() && (#[trigger] rest[i]).id == Some(event_id);
                assert(events[i + 1].id == Some(event_id));
            }
            if find_event(rest, event_id) is Some {
                let e = find_event(rest, event_id)->0;
                let i = choose|i: int| 0 <= i < rest.len() && rest[i] == e;
                assert(events[i + 1] == e);
            }
        } else {
            assert(events[0] == events[0]);
        }
    }
}

/// A search for a user finds one exactly when the list holds one, and what
/// it finds is a user of the list with the identifier.
pub proof fn lemma_find_user(users: Seq<UserView>, user_id: DocId)
    ensures
        find_user(users, user_id) is Some <==> holds_user(users, user_id),
        find_user(users, user_id) matches Some(u) ==> u.id == Some(user_id) && users.contains(u),
    decreases users.len(),
{
    if users.len() > 0 {
        let rest = users.drop_first();
        lemma_find_user(rest, user_id);
        if users[0].id != Some(user_id) {
            if holds_user(users, user_id) {
                let i = choose|i: int|
                    0 <= i < users.len() && (#[trigger] users[i]).id == Some(user_id);
                assert(rest[i - 1].id == Some(user_id));
            }
            if holds_user(rest, user_id) {
                let i = choose|i: int| 0 <= i < rest.len() && (#[trigger] rest[i]).id == Some(user_id);
                assert(users[i + 1].id == Some(user_id));
            }
            if find_user(rest, user_id) is Some {
                let u = find_user(rest, user_id)->0;
                let i = choose|i: int| 0 <= i < rest.len() && rest[i] == u;
                assert(users[i + 1] == u);
            }
        } else {
            assert(users[0] == users[0]);
        }
    }
}

/// A write matches a document exactly when the list holds the event.
pub proof fn lemma_count_events(events: Seq<EventView>, event_id: DocId)
    ensures
        count_events(events, event_id) > 0 <==> holds_event(events, event_id),
{
    let keep = event_with(event_id);
    let kept = events.filter(keep);
    if kept.len() > 0 {
        assert(kept.contains(kept[0]));
        lemma_filter_member(events, keep, kept[0]);
        let i = choose|i: int| 0 <= i < events.len() && events[i] == kept[0];
        assert(events[i].id == Some(event_id));
    }
    if holds_event(events, event_id) {
        let i = choose|i: int| 0 <= i < events.len() && (#[trigger] events[i]).id == Some(event_id);
        assert(events.contains(events[i]));
        lemma_filter_member(events, keep, events[i]);
    }
}

/// The test that an event passes when it has the identifier.
pub open spec fn event_with(event_id: DocId) -> spec_fn(EventView) -> bool {
    |e: EventView| e.id == Some(event_id)
}

/// The test that a user passes when it has the identifier.
pub open spec fn user_with(user_id: DocId) -> spec_fn(UserView) -> bool {
    |u: UserView| u.id == Some(user_id)
}

/// The test that an event passes when it is pinned.
pub open spec fn is_pinned() -> spec_fn(EventView) -> bool {
    |e: EventView| e.pinned
}

/// How many events of the list have the identifier.
pub open spec fn count_events(events: Seq<EventView>, event_id: DocId) -> nat {
    events.filter(event_with(event_id)).len()
}

/// How many users of the list have the identifier.
pub open spec fn count_users(users: Seq<UserView>, user_id: DocId) -> nat {
    users.filter(user_with(user_id)).len()
}

/// How many events of the list are pinned.
pub open spec fn count_pinned(events: Seq<EventView>) -> nat {
    events.filter(is_pinned()).len()
}

/// The list after a set-semantics add of the record to the event.
pub open spec fn events_with_attendee(
    events: Seq<EventView>,
    event_id: DocId,
    attendee: AttendeeView,
) -> Seq<EventView> {
    events.map_values(
        |e: EventView|
            if e.id == Some(event_id) {
                e.with_attendee(attendee)
            } else {
                e
            },
    )
}

/// The list after the user is taken off the event's attendees.
pub open spec fn events_without_attendee(
    events: Seq<EventView>,
    event_id: DocId,
    user_id: DocId,
) -> Seq<EventView> {
    events.map_values(
        |e: EventView|
            if e.id == Some(event_id) {
                e.without_attendee(user_id)
            } else {
                e
            },
    )
}

/// The list after the event's pin is set as given.
pub open spec fn events_with_pin(events: Seq<EventView>, event_id: DocId, pinned: bool) -> Seq<
    EventView,
> {
    events.map_values(
        |e: EventView|
            if e.id == Some(event_id) {
                e.with_pinned(pinned)
            } else {
                e
            },
    )
}

/// The list with no event pinned.
pub open spec fn events_unpinned(events: Seq<EventView>) -> Seq<EventView> {
    events.map_values(|e: EventView| e.with_pinned(false))
}

/// The list after a set-semantics add of the event to the user.
pub open spec fn users_with_event(users: Seq<UserView>, user_id: DocId, event_id: DocId) -> Seq<
    UserView,
> {
    users.map_values(
        |u: UserView|
            if u.id == Some(user_id) {
                u.with_event(event_id)
            } else {
                u
            },
    )
}

/// The list after the event is taken off the user.
pub open spec fn users_without_event(
    users: Seq<UserView>,
    user_id: DocId,
    event_id: DocId,
) -> Seq<UserView> {
    users.map_values(
        |u: UserView|
            if u.id == Some(user_id) {
                u.without_event(event_id)
            } else {
                u
            },
    )
}

/// The list after the user is updated.
pub open spec fn users_with_update(
    users: Seq<UserView>,
    user_id: DocId,
    update: UserUpdateView,
) -> Seq<UserView> {
    users.map_values(
        |u: UserView|
            if u.id == Some(user_id) {
                u.with_update(update)
            } else {
                u
            },
    )
}

/// The list after the user's mark as an administrator is set as given.
pub open spec fn users_with_admin(users: Seq<UserView>, user_id: DocId, admin: bool) -> Seq<
    UserView,
> {
    users.map_values(
        |u: UserView|
            if u.id == Some(user_id) {
                u.with_admin(admin)
            } else {
                u
            },
    )
}

/// The list after the event is updated.
pub open spec fn events_with_update(
    events: Seq<EventView>,
    event_id: DocId,
    update: EventUpdateView,
) -> Seq<EventView> {
    events.map_values(
        |e: EventView|
            if e.id == Some(event_id) {
                e.with_update(update)
            } else {
                e
            },
    )
}

/// No two events of the list share an identifier.
pub open spec fn distinct_ids(events: Seq<EventView>) -> bool {
    forall|i: int, j: int|
        0 <= i < j < events.len() ==> (#[trigger] events[i]).id != (#[trigger] events[j]).id
}

/// No two users of the list share an identifier.
pub open spec fn distinct_user_ids(users: Seq<UserView>) -> bool {
    forall|i: int, j: int|
        0 <= i < j < users.len() ==> (#[trigger] users[i]).id != (#[trigger] users[j]).id
}

/// No user has two records on the attendee list.
pub open spec fn one_record_each(attendees: Seq<AttendeeView>) -> bool {
    forall|i: int, j: int|
        0 <= i < j < attendees.len() ==> (#[trigger] attendees[i]).user_id != (
        #[trigger] attendees[j]).user_id
}

/// No event is named twice on the list.
pub open spec fn named_once(events: Seq<DocId>) -> bool {
    forall|i: int, j: int| 0 <= i < j < events.len() ==> events[i] != events[j]
}

/// Every attendee list and every user's list of events is a set: no user
/// has two records on one event, and no user names an event twice.
pub open spec fn lists_are_sets(events: Seq<EventView>, users: Seq<UserView>) -> bool {
    &&& forall|i: int| 0 <= i < events.len() ==> one_record_each((#[trigger] events[i]).attendees)
    &&& forall|i: int| 0 <= i < users.len() ==> named_once((#[trigger] users[i]).attending_events)
}

/// An attendee list that is a set is one after a set-semantics add.
pub proof fn lemma_with_attendee_is_a_set(e: EventView, attendee: AttendeeView)
    requires
        one_record_each(e.attendees),
    ensures
        one_record_each(e.with_attendee(attendee).attendees),
{
    if !e.has_attendee(attendee.user_id) {
        let after = e.attendees.push(attendee);
        assert forall|i: int, j: int| 0 <= i < j < after.len() implies (#[trigger] after[i]).user_id
            != (#[trigger] after[j]).user_id by {
            if j < e.attendees.len() {
                assert(e.attendees[i].user_id != e.attendees[j].user_id);
            } else {
                assert(e.attendees[i].user_id != attendee.user_id);
            }
        }
    }
}

/// An attendee list that is a set is one after a user is taken off.
pub proof fn lemma_without_attendee_is_a_set(e: EventView, user_id: DocId)
    requires
        one_record_each(e.attendees),
    ensures
        one_record_each(e.without_attendee(user_id).attendees),
{
    let after = e.without_attendee(user_id).attendees;
    assert forall|i: int, j: int| 0 <= i < j < after.len() implies (#[trigger] after[i]).user_id != (
    #[trigger] after[j]).user_id by {
        lemma_filter_order(e.attendees, not_of(user_id), i, j);
        let (a, b) = choose|a: int, b: int|
            #![trigger e.attendees[a], e.attendees[b]]
            0 <= a < b < e.attendees.len() && e.attendees[a] == after[i] && e.attendees[b]
                == after[j];
        assert(e.attendees[a].user_id != e.attendees[b].user_id);
    }
}

/// A user's list that is a set is one after a set-semantics add.
pub proof fn lemma_with_event_is_a_set(u: UserView, event_id: DocId)
    requires
        named_once(u.attending_events),
    ensures
        named_once(u.with_event(event_id).attending_events),
{
    if !u.attends(event_id) {
        let after = u.attending_events.push(event_id);
        assert forall|i: int, j: int| 0 <= i < j < after.len() implies after[i] != after[j] by {
            if j < u.attending_events.len() {
                assert(u.attending_events[i] != u.attending_events[j]);
            } else {
                assert(u.attending_events.contains(u.attending_events[i]));
            }
        }
    }
}

/// A user's list that is a set is one after an event is taken off.
pub proof fn lemma_without_event_is_a_set(u: UserView, event_id: DocId)
    requires
        named_once(u.attending_events),
    ensures
        named_once(u.without_event(event_id).attending_events),
{
    let before = u.attending_events;
    let after = u.without_event(event_id).attending_events;
    assert forall|i: int, j: int| 0 <= i < j < after.len() implies after[i] != after[j] by {
        lemma_filter_order(before, other_than(event_id), i, j);
        let (a, b) = choose|a: int, b: int|
            #![trigger before[a], before[b]]
            0 <= a < b < before.len() && before[a] == after[i] && before[b] == after[j];
        assert(before[a] != before[b]);
    }
}

/// A list that has, place by place, the identifiers of a list without
/// repeats is without repeats.
pub proof fn lemma_same_ids(before: Seq<EventView>, after: Seq<EventView>)
    requires
        distinct_ids(before),
        after.len() == before.len(),
        forall|i: int| 0 <= i < before.len() ==> (#[trigger] after[i]).id == before[i].id,
    ensures
        distinct_ids(after),
{
    assert forall|i: int, j: int| 0 <= i < j < after.len() implies (#[trigger] after[i]).id != (
    #[trigger] after[j]).id by {
        assert(before[i].id != before[j].id);
    }
}

/// A list that has, place by place, the identifiers of a list without
/// repeats is without repeats.
pub proof fn lemma_same_user_ids(before: Seq<UserView>, after: Seq<UserView>)
    requires
        distinct_user_ids(before),
        after.len() == before.len(),
        forall|i: int| 0 <= i < before.len() ==> (#[trigger] after[i]).id == before[i].id,
    ensures
        distinct_user_ids(after),
{
    assert forall|i: int, j: int| 0 <= i < j < after.len() implies (#[trigger] after[i]).id != (
    #[trigger] after[j]).id by {
        assert(before[i].id != before[j].id);
    }
}

/// A list that has, place by place, the identifiers of another holds the
/// events that the other holds.
pub proof fn lemma_same_ids_hold(before: Seq<EventView>, after: Seq<EventView>, event_id: DocId)
    requires
        after.len() == before.len(),
        forall|i: int| 0 <= i < before.len() ==> (#[trigger] after[i]).id == before[i].id,
    ensures
        holds_event(after, event_id) <==> holds_event(before, event_id),
{
    if holds_event(before, event_id) {
        let i = choose|i: int| 0 <= i < before.len() && (#[trigger] before[i]).id == Some(event_id);
        assert(after[i].id == Some(event_id));
    }
    if holds_event(after, event_id) {
        let i = choose|i: int| 0 <= i < after.len() && (#[trigger] after[i]).id == Some(event_id);
        assert(before[i].id == Some(event_id));
    }
}

/// A list that has, place by place, the identifiers of another holds the
/// users that the other holds.
pub proof fn lemma_same_user_ids_hold(before: Seq<UserView>, after: Seq<UserView>, user_id: DocId)
    requires
        after.len() == before.len(),
        forall|i: int| 0 <= i < before.len() ==> (#[trigger] after[i]).id == before[i].id,
    ensures
        holds_user(after, user_id) <==> holds_user(before, user_id),
{
    if holds_user(before, user_id) {
        let i = choose|i: int| 0 <= i < before.len() && (#[trigger] before[i]).id == Some(user_id);
        assert(after[i].id == Some(user_id));
    }
    if holds_user(after, user_id) {
        let i = choose|i: int| 0 <= i < after.len() && (#[trigger] after[i]).id == Some(user_id);
        assert(before[i].id == Some(user_id));
    }
}

/// The state of a store: its documents, the faults it is still to suffer, and
/// the transaction that is open, if any.
pub struct StoreView {
    pub events: Seq<EventView>,
    pub users: Seq<UserView>,
    pub revoked: Seq<RevocationEntry>,
    /// One flag for each call to come, in order: `true` makes that call fail.
    /// Calls beyond the script succeed.
    pub faults: Seq<bool>,
    /// Whether the store can open transactions at all.
    pub transactional: bool,
    /// The documents as they were when the open transaction began.
    pub snapshot: Option<(Seq<EventView>, Seq<UserView>)>,
}

impl StoreView {
    /// Whether the `k`-th call from now is scripted to fail.
    pub open spec fn fault_at(self, k: int) -> bool {
        0 <= k < self.faults.len() && self.faults[k]
    }

    /// Whether the next call is scripted to fail.
    pub open spec fn faulted(self) -> bool {
        self.fault_at(0)
    }

    /// The store with `n` flags of its fault script used up.
    pub open spec fn spent(self, n: nat) -> StoreView {
        StoreView {
            faults: if n <= self.faults.len() {
                self.faults.skip(n as int)
            } else {
                Seq::empty()
            },
            ..self
        }
    }

    /// The store with its documents as they were when the open transaction
    /// began, and no transaction open.
    pub open spec fn rolled_back(self) -> StoreView {
        match self.snapshot {
            Some((events, users)) => StoreView { events, users, snapshot: None, ..self },
            None => self,
        }
    }

    /// Whether the store is one that a document store can be in: no two
    /// events and no two users share an identifier, now or in the state
    /// that an open transaction would roll back to.
    pub open spec fn valid(self) -> bool {
        &&& distinct_ids(self.events)
        &&& distinct_user_ids(self.users)
        &&& self.snapshot matches Some((events, users)) ==> distinct_ids(events)
            && distinct_user_ids(users)
    }

    /// Whether every list of the store's documents is a set, now and in the
    /// state that an open transaction would roll back to.
    pub open spec fn set_like(self) -> bool {
        &&& lists_are_sets(self.events, self.users)
        &&& self.snapshot matches Some((events, users)) ==> lists_are_sets(events, users)
    }

    /// Whether a transaction can begin now.
    pub open spec fn can_begin(self) -> bool {
        self.transactional && self.snapshot is None
    }

    /// Whether the store holds an event with the identifier.
    pub open spec fn has_event(self, event_id: DocId) -> bool {
        holds_event(self.events, event_id)
    }

    /// Whether the store holds a user with the identifier.
    pub open spec fn has_user(self, user_id: DocId) -> bool {
        holds_user(self.users, user_id)
    }

    /// What the store answers to a call.
    pub open spec fn reply(self, request: StoreRequestView) -> StoreReplyView {
        if self.faulted() {
            StoreReplyView::Failed
        } else {
            match request {
                StoreRequestView::FindEvent { event_id, user_id } => match find_event(
                    self.events,
                    event_id,
                ) {
                    Some(e) => StoreReplyView::Present(record_of(e.attendees, user_id)),
                    None => StoreReplyView::Absent,
                },
                StoreRequestView::FindUser { user_id } => if self.has_user(user_id) {
                    StoreReplyView::Present(None)
                } else {
                    StoreReplyView::Absent
                },
                StoreRequestView::FindRevocation { token_id } => if listed(
                    self.revoked,
                    token_id,
                ) {
                    StoreReplyView::Present(None)
                } else {
                    StoreReplyView::Absent
                },
                StoreRequestView::AddAttendee { event_id, .. } => StoreReplyView::Matched(
                    count_events(self.events, event_id),
                ),
                StoreRequestView::RemoveAttendee { event_id, .. } => StoreReplyView::Matched(
                    count_events(self.events, event_id),
                ),
                StoreRequestView::SetPinned { event_id, .. } => StoreReplyView::Matched(
                    count_events(self.events, event_id),
                ),
                StoreRequestView::AddMembership { user_id, .. } => StoreReplyView::Matched(
                    count_users(self.users, user_id),
                ),
                StoreRequestView::RemoveMembership { user_id, .. } => StoreReplyView::Matched(
                    count_users(self.users, user_id),
                ),
                StoreRequestView::UnsetAllPinned => StoreReplyView::Matched(
                    count_pinned(self.events),
                ),
                StoreRequestView::BeginTransaction => if self.can_begin() {
                    StoreReplyView::Done
                } else {
                    StoreReplyView::Failed
                },
                StoreRequestView::CommitTransaction => if self.snapshot is Some {
                    StoreReplyView::Done
                } else {
                    StoreReplyView::Failed
                },
                StoreRequestView::AbortTransaction => StoreReplyView::Done,
            }
        }
    }

    /// The store after a call. A call that fails changes no document, and a
    /// commit or an abort that fails leaves the transaction rolled back.
    pub open spec fn after(self, request: StoreRequestView) -> StoreView {
        let s = self.spent(1);
        if self.faulted() {
            match request {
                StoreRequestView::CommitTransaction => s.rolled_back(),
                StoreRequestView::AbortTransaction => s.rolled_back(),
                _ => s,
            }
        } else {
            match request {
                StoreRequestView::AddAttendee { event_id, attendee } => StoreView {
                    events: events_with_attendee(s.events, event_id, attendee),
                    ..s
                },
                StoreRequestView::RemoveAttendee { event_id, user_id } => StoreView {
                    events: events_without_attendee(s.events, event_id, user_id),
                    ..s
                },
                StoreRequestView::AddMembership { user_id, event_id } => StoreView {
                    users: users_with_event(s.users, user_id, event_id),
                    ..s
                },
                StoreRequestView::RemoveMembership { user_id, event_id } => StoreView {
                    users: users_without_event(s.users, user_id, event_id),
                    ..s
                },
                StoreRequestView::UnsetAllPinned => StoreView {
                    events: events_unpinned(s.events),
                    ..s
                },
                StoreRequestView::SetPinned { event_id, pinned } => StoreView {
                    events: events_with_pin(s.events, event_id, pinned),
                    ..s
                },
                StoreRequestView::BeginTransaction => if s.can_begin() {
                    StoreView { snapshot: Some((s.events, s.users)), ..s }
                } else {
                    s
                },
                StoreRequestView::CommitTransaction => StoreView { snapshot: None, ..s },
                StoreRequestView::AbortTransaction => s.rolled_back(),
                _ => s,
            }
        }
    }
}

} // verus!

verus! {

/// No call takes a valid store to one that is not.
pub proof fn law_calls_keep_the_store_valid(s: StoreView, request: StoreRequestView)
    requires
        s.valid(),
    ensures
        s.after(request).valid(),
{
    match request {
        StoreRequestView::AddAttendee { event_id, attendee } => {
            lemma_same_ids(s.events, events_with_attendee(s.events, event_id, attendee));
        },
        StoreRequestView::RemoveAttendee { event_id, user_id } => {
            lemma_same_ids(s.events, events_without_attendee(s.events, event_id, user_id));
        },
        StoreRequestView::AddMembership { user_id, event_id } => {
            lemma_same_user_ids(s.users, users_with_event(s.users, user_id, event_id));
        },
        StoreRequestView::RemoveMembership { user_id, event_id } => {
            lemma_same_user_ids(s.users, users_without_event(s.users, user_id, event_id));
        },
        StoreRequestView::UnsetAllPinned => {
            lemma_same_ids(s.events, events_unpinned(s.events));
        },
        StoreRequestView::SetPinned { event_id, pinned } => {
            lemma_same_ids(s.events, events_with_pin(s.events, event_id, pinned));
        },
        _ => {},
    }
}

/// No call takes a store whose lists are sets to one whose lists are not.
pub proof fn law_calls_keep_lists_sets(s: StoreView, request: StoreRequestView)
    requires
        s.set_like(),
    ensures
        s.after(request).set_like(),
{
    let t = s.after(request);
    if !s.faulted() {
        match request {
            StoreRequestView::AddAttendee { event_id, attendee } => {
                assert forall|i: int| 0 <= i < t.events.len() implies one_record_each(
                    (#[trigger] t.events[i]).attendees,
                ) by {
                    lemma_with_attendee_is_a_set(s.events[i], attendee);
                }
            },
            StoreRequestView::RemoveAttendee { event_id, user_id } => {
                assert forall|i: int| 0 <= i < t.events.len() implies one_record_each(
                    (#[trigger] t.events[i]).attendees,
                ) by {
                    lemma_without_attendee_is_a_set(s.events[i], user_id);
                }
            },
            StoreRequestView::AddMembership { user_id, event_id } => {
                assert forall|i: int| 0 <= i < t.users.len() implies named_once(
                    (#[trigger] t.users[i]).attending_events,
                ) by {
                    lemma_with_event_is_a_set(s.users[i], event_id);
                }
            },
            StoreRequestView::RemoveMembership { user_id, event_id } => {
                assert forall|i: int| 0 <= i < t.users.len() implies named_once(
                    (#[trigger] t.users[i]).attending_events,
                ) by {
                    lemma_without_event_is_a_set(s.users[i], event_id);
                }
            },
            StoreRequestView::UnsetAllPinned => {
                assert forall|i: int| 0 <= i < t.events.len() implies one_record_each(
                    (#[trigger] t.events[i]).attendees,
                ) by {
                    assert(t.events[i].attendees == s.events[i].attendees);
                }
            },
            StoreRequestView::SetPinned { event_id, pinned } => {
                assert forall|i: int| 0 <= i < t.events.len() implies one_record_each(
                    (#[trigger] t.events[i]).attendees,
                ) by {
                    assert(t.events[i].attendees == s.events[i].attendees);
                }
            },
            _ => {},
        }
    }
}

/// The answer to `FindEvent` when the event was found: the first record of
/// the user on its attendee list, if there is one.
pub fn event_found(event: &Event, user_id: &DocId) -> (reply: StoreReply)
    ensures
        reply@ == StoreReplyView::Present(record_of(event@.attendees, *user_id)),
{
    let list = &event.attendees;
    let ghost all = attendee_views(list@);
    let mut i: usize = 0;
    assert(all.skip(0) =~= all);
    while i < list.len()
        invariant
            i <= list.len(),
            all == attendee_views(list@),
            all == event@.attendees,
            record_of(all, *user_id) == record_of(all.skip(i as int), *user_id),
        decreases list.len() - i,
    {
        assert(all.skip(i as int).drop_first() =~= all.skip(i + 1));
        assert(all.skip(i as int)[0] == list[i as int]@);
        if list[i].user_id == *user_id {
            return StoreReply::Present(Some(list[i].clone()));
        }
        i += 1;
    }
    StoreReply::Present(None)
}

/// What a coordinator wants next: one more call to the store, or nothing
/// more, because the operation has ended as given.
#[derive(Debug)]
pub enum Step {
    Ask(StoreRequest),
    Done(Result<(), Failure>),
}

/// What a `Step` holds.
pub enum StepView {
    Ask(StoreRequestView),
    Done(Result<(), Failure>),
}

impl View for Step {
    type V = StepView;

    open spec fn view(&self) -> StepView {
        match *self {
            Step::Ask(request) => StepView::Ask(request@),
            Step::Done(outcome) => StepView::Done(outcome),
        }
    }
}

} // verus!
