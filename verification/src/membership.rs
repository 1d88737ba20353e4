use crate::auth::AuthContext;
use crate::failure::Failure;
use crate::ident::{id_bytes, id_from, is_id_text, lemma_id_from, DocId};
use crate::memory::{events_among, MemoryStore};
use crate::models::{texts, Attendee, AttendeeView, Event, EventView, UserJoinRequest};
use crate::respond::StoreFault;
use crate::store::{
    event_views, events_with_attendee, events_without_attendee, find_event, holds_event,
    lemma_count_events, lemma_find_event, record_of, users_with_event, users_without_event, Step,
    StepView, StoreReply, StoreReplyView, StoreRequest, StoreRequestView, StoreView,
};
use vstd::prelude::*;

verus! {

/// Where a change of membership stands: which answer it is waiting for.
#[derive(Debug, Clone, Copy)]
pub enum Stage {
    /// The read that says whether the event exists.
    Checking,
    /// The write on the event's attendee list.
    EventSide,
    /// The write on the user's list of events.
    UserSide,
    /// The write that undoes the event-side write.
    Compensating,
    /// Nothing: the change has ended.
    Settled(Result<(), Failure>),
}

impl Stage {
    /// An upper bound on the calls still to make.
    pub open spec fn rank(self) -> nat {
        match self {
            Stage::Checking => 4,
            Stage::EventSide => 3,
            Stage::UserSide => 2,
            Stage::Compensating => 1,
            Stage::Settled(_) => 0,
        }
    }
}

/// One join under way: the event, the record to put on its list, and
/// whether the first read found the user not yet on that list, so that the
/// record is one this join adds.
#[derive(Debug)]
pub struct JoinSaga {
    pub stage: Stage,
    pub event_id: DocId,
    pub attendee: Attendee,
    pub fresh: bool,
}

/// What a `JoinSaga` holds.
pub struct JoinSagaView {
    pub stage: Stage,
    pub event_id: DocId,
    pub attendee: AttendeeView,
    pub fresh: bool,
}

impl View for JoinSaga {
    type V = JoinSagaView;

    open spec fn view(&self) -> JoinSagaView {
        JoinSagaView {
            stage: self.stage,
            event_id: self.event_id,
            attendee: self.attendee@,
            fresh: self.fresh,
        }
    }
}

impl JoinSagaView {
    /// The first request of a join: the read of the event and of the user's
    /// record on it.
    pub open spec fn first(event_id: DocId, attendee: AttendeeView) -> (JoinSagaView, StepView) {
        (
            JoinSagaView { stage: Stage::Checking, event_id, attendee, fresh: false },
            StepView::Ask(StoreRequestView::FindEvent { event_id, user_id: attendee.user_id }),
        )
    }

    /// The join after the store's answer, and the step it takes.
    ///
    /// The event is read, then written, then the user is written. A read
    /// that finds nothing, and an event-side write that matches nothing, end
    /// the join with `NotFound`; a call that fails ends it with
    /// `PersistenceError`. When it is the user-side write that fails and the
    /// record is one this join added, the record is first taken off the
    /// event again, and if that fails too the join ends with
    /// `PartialFailure`.
    pub open spec fn turn(self, reply: StoreReplyView) -> (JoinSagaView, StepView) {
        match self.stage {
            Stage::Checking => match reply {
                StoreReplyView::Present(record) => (
                    JoinSagaView { stage: Stage::EventSide, fresh: record is None, ..self },
                    StepView::Ask(
                        StoreRequestView::AddAttendee {
                            event_id: self.event_id,
                            attendee: self.attendee,
                        },
                    ),
                ),
                StoreReplyView::Absent => self.end(Err(Failure::NotFound)),
                _ => self.end(Err(Failure::PersistenceError)),
            },
            Stage::EventSide => match reply {
                StoreReplyView::Matched(n) => if n == 0 {
                    self.end(Err(Failure::NotFound))
                } else {
                    (
                        JoinSagaView { stage: Stage::UserSide, ..self },
                        StepView::Ask(
                            StoreRequestView::AddMembership {
                                user_id: self.attendee.user_id,
                                event_id: self.event_id,
                            },
                        ),
                    )
                },
                _ => self.end(Err(Failure::PersistenceError)),
            },
            Stage::UserSide => match reply {
                StoreReplyView::Matched(_) => self.end(Ok(())),
                _ => if self.fresh {
                    (
                        JoinSagaView { stage: Stage::Compensating, ..self },
                        StepView::Ask(
                            StoreRequestView::RemoveAttendee {
                                event_id: self.event_id,
                                user_id: self.attendee.user_id,
                            },
                        ),
                    )
                } else {
                    self.end(Err(Failure::PersistenceError))
                },
            },
            Stage::Compensating => match reply {
                StoreReplyView::Matched(_) => self.end(Err(Failure::PersistenceError)),
                _ => self.end(Err(Failure::PartialFailure)),
            },
            Stage::Settled(outcome) => self.end(outcome),
        }
    }

    /// The join ended as given.
    pub open spec fn end(self, outcome: Result<(), Failure>) -> (JoinSagaView, StepView) {
        (JoinSagaView { stage: Stage::Settled(outcome), ..self }, StepView::Done(outcome))
    }
}

impl JoinSaga {
    /// Starts the join that a request asks for. Both identifiers must parse,
    /// or the request is `InvalidInput` and nothing is started.
    pub fn request(event_id: &str, user_data: &UserJoinRequest) -> (r: Result<
        (JoinSaga, Step),
        Failure,
    >)
        ensures
            r is Ok <==> is_id_text(event_id@) && is_id_text(user_data.user_id@),
            r matches Err(e) ==> e == Failure::InvalidInput,
            r matches Ok(started) ==> (started.0@, started.1@) == JoinSagaView::first(
                id_from(id_bytes(event_id@)),
                AttendeeView {
                    user_id: id_from(id_bytes(user_data.user_id@)),
                    name: user_data.name@,
                    email: user_data.email@,
                },
            ),
    {
        let event_oid = match DocId::parse_str(event_id) {
            Ok(id) => id,
            Err(failure) => {
                return Err(failure);
            },
        };
        let user_oid = match DocId::parse_str(user_data.user_id.as_str()) {
            Ok(id) => id,
            Err(failure) => {
                return Err(failure);
            },
        };
        let attendee = Attendee {
            user_id: user_oid,
            name: user_data.name.clone(),
            email: user_data.email.clone(),
        };
        Ok(JoinSaga::begin(event_oid, attendee))
    }

    /// Starts a join of the event by the user the record is of.
    pub fn begin(event_id: DocId, attendee: Attendee) -> (r: (JoinSaga, Step))
        ensures
            (r.0@, r.1@) == JoinSagaView::first(event_id, attendee@),
    {
        let request = StoreRequest::FindEvent { event_id, user_id: attendee.user_id };
        (JoinSaga { stage: Stage::Checking, event_id, attendee, fresh: false }, Step::Ask(request))
    }

    /// Takes the store's answer to the last request and says what is next.
    pub fn advance(&mut self, reply: &StoreReply) -> (step: Step)
        ensures
            (final(self)@, step@) == old(self)@.turn(reply@),
    {
        let (stage, step) = match self.stage {
            Stage::Checking => match reply {
                StoreReply::Present(record) => {
                    self.fresh = record.is_none();
                    (
                        Stage::EventSide,
                        Step::Ask(
                            StoreRequest::AddAttendee {
                                event_id: self.event_id,
                                attendee: self.attendee.clone(),
                            },
                        ),
                    )
                },
                StoreReply::Absent => (
                    Stage::Settled(Err(Failure::NotFound)),
                    Step::Done(Err(Failure::NotFound)),
                ),
                _ => (
                    Stage::Settled(Err(Failure::PersistenceError)),
                    Step::Done(Err(Failure::PersistenceError)),
                ),
            },
            Stage::EventSide => match reply {
                StoreReply::Matched(n) => if *n == 0 {
                    (Stage::Settled(Err(Failure::NotFound)), Step::Done(Err(Failure::NotFound)))
                } else {
                    (
                        Stage::UserSide,
                        Step::Ask(
                            StoreRequest::AddMembership {
                                user_id: self.attendee.user_id,
                                event_id: self.event_id,
                            },
                        ),
                    )
                },
                _ => (
                    Stage::Settled(Err(Failure::PersistenceError)),
                    Step::Done(Err(Failure::PersistenceError)),
                ),
            },
            Stage::UserSide => match reply {
                StoreReply::Matched(_) => (Stage::Settled(Ok(())), Step::Done(Ok(()))),
                _ => if self.fresh {
                    (
                        Stage::Compensating,
                        Step::Ask(
                            StoreRequest::RemoveAttendee {
                                event_id: self.event_id,
                                user_id: self.attendee.user_id,
                            },
                        ),
                    )
                } else {
                    (
                        Stage::Settled(Err(Failure::PersistenceError)),
                        Step::Done(Err(Failure::PersistenceError)),
                    )
                },
            },
            Stage::Compensating => match reply {
                StoreReply::Matched(_) => (
                    Stage::Settled(Err(Failure::PersistenceError)),
                    Step::Done(Err(Failure::PersistenceError)),
                ),
                _ => (
                    Stage::Settled(Err(Failure::PartialFailure)),
                    Step::Done(Err(Failure::PartialFailure)),
                ),
            },
            Stage::Settled(outcome) => (Stage::Settled(outcome), Step::Done(outcome)),
        };
        self.stage = stage;
        step
    }
}

/// One leave under way: the event, the user, and the record that the first
/// read found on the event's list, kept to put back if the user-side write
/// fails.
#[derive(Debug)]
pub struct LeaveSaga {
    pub stage: Stage,
    pub event_id: DocId,
    pub user_id: DocId,
    pub record: Option<Attendee>,
}

/// What a `LeaveSaga` holds.
pub struct LeaveSagaView {
    pub stage: Stage,
    pub event_id: DocId,
    pub user_id: DocId,
    pub record: Option<AttendeeView>,
}

/// The record an optional attendee holds.
pub open spec fn opt_record(record: Option<Attendee>) -> Option<AttendeeView> {
    match record {
        Some(a) => Some(a@),
        None => None,
    }
}

impl View for LeaveSaga {
    type V = LeaveSagaView;

    open spec fn view(&self) -> LeaveSagaView {
        LeaveSagaView {
            stage: self.stage,
            event_id: self.event_id,
            user_id: self.user_id,
            record: opt_record(self.record),
        }
    }
}

impl LeaveSagaView {
    /// The first request of a leave: the read of the event and of the user's
    /// record on it.
    pub open spec fn first(event_id: DocId, user_id: DocId) -> (LeaveSagaView, StepView) {
        (
            LeaveSagaView { stage: Stage::Checking, event_id, user_id, record: None },
            StepView::Ask(StoreRequestView::FindEvent { event_id, user_id }),
        )
    }

    /// The leave after the store's answer, and the step it takes.
    ///
    /// The event is read, then the user is taken off its list, then the event
    /// off the user's. A read that finds nothing, and an event-side write
    /// that matches nothing, end the leave with `NotFound`; a call that fails
    /// ends it with `PersistenceError`, but when it is the user-side write
    /// that fails and the read had found a record, the record is first put
    /// back, and if that fails too the leave ends with `PartialFailure`.
    pub open spec fn turn(self, reply: StoreReplyView) -> (LeaveSagaView, StepView) {
        match self.stage {
            Stage::Checking => match reply {
                StoreReplyView::Present(record) => (
                    LeaveSagaView { stage: Stage::EventSide, record, ..self },
                    StepView::Ask(
                        StoreRequestView::RemoveAttendee {
                            event_id: self.event_id,
                            user_id: self.user_id,
                        },
                    ),
                ),
                StoreReplyView::Absent => self.end(Err(Failure::NotFound)),
                _ => self.end(Err(Failure::PersistenceError)),
            },
            Stage::EventSide => match reply {
                StoreReplyView::Matched(n) => if n == 0 {
                    self.end(Err(Failure::NotFound))
                } else {
                    (
                        LeaveSagaView { stage: Stage::UserSide, ..self },
                        StepView::Ask(
                            StoreRequestView::RemoveMembership {
                                user_id: self.user_id,
                                event_id: self.event_id,
                            },
                        ),
                    )
                },
                _ => self.end(Err(Failure::PersistenceError)),
            },
            Stage::UserSide => match reply {
                StoreReplyView::Matched(_) => self.end(Ok(())),
                _ => match self.record {
                    Some(attendee) => (
                        LeaveSagaView { stage: Stage::Compensating, ..self },
                        StepView::Ask(
                            StoreRequestView::AddAttendee { event_id: self.event_id, attendee },
                        ),
                    ),
                    None => self.end(Err(Failure::PersistenceError)),
                },
            },
            Stage::Compensating => match reply {
                StoreReplyView::Matched(_) => self.end(Err(Failure::PersistenceError)),
                _ => self.end(Err(Failure::PartialFailure)),
            },
            Stage::Settled(outcome) => self.end(outcome),
        }
    }

    /// The leave ended as given.
    pub open spec fn end(self, outcome: Result<(), Failure>) -> (LeaveSagaView, StepView) {
        (LeaveSagaView { stage: Stage::Settled(outcome), ..self }, StepView::Done(outcome))
    }
}

impl LeaveSaga {
    /// Starts the leave that a request asks for. Both identifiers must
    /// parse, or the request is `InvalidInput` and nothing is started.
    pub fn request(event_id: &str, user_id: &str) -> (r: Result<(LeaveSaga, Step), Failure>)
        ensures
            r is Ok <==> is_id_text(event_id@) && is_id_text(user_id@),
            r matches Err(e) ==> e == Failure::InvalidInput,
            r matches Ok(started) ==> (started.0@, started.1@) == LeaveSagaView::first(
                id_from(id_bytes(event_id@)),
                id_from(id_bytes(user_id@)),
            ),
    {
        let event_oid = match DocId::parse_str(event_id) {
            Ok(id) => id,
            Err(failure) => {
                return Err(failure);
            },
        };
        let user_oid = match DocId::parse_str(user_id) {
            Ok(id) => id,
            Err(failure) => {
                return Err(failure);
            },
        };
        proof {
            lemma_id_from(event_oid);
            lemma_id_from(user_oid);
        }
        Ok(LeaveSaga::begin(event_oid, user_oid))
    }

    /// Starts a leave of the event by the user.
    pub fn begin(event_id: DocId, user_id: DocId) -> (r: (LeaveSaga, Step))
        ensures
            (r.0@, r.1@) == LeaveSagaView::first(event_id, user_id),
    {
        (
            LeaveSaga { stage: Stage::Checking, event_id, user_id, record: None },
            Step::Ask(StoreRequest::FindEvent { event_id, user_id }),
        )
    }

    /// Takes the store's answer to the last request and says what is next.
    pub fn advance(&mut self, reply: &StoreReply) -> (step: Step)
        ensures
            (final(self)@, step@) == old(self)@.turn(reply@),
    {
        let (stage, step) = match self.stage {
            Stage::Checking => match reply {
                StoreReply::Present(record) => {
                    self.record = match record {
                        Some(a) => Some(a.clone()),
                        None => None,
                    };
                    (
                        Stage::EventSide,
                        Step::Ask(
                            StoreRequest::RemoveAttendee {
                                event_id: self.event_id,
                                user_id: self.user_id,
                            },
                        ),
                    )
                },
                StoreReply::Absent => (
                    Stage::Settled(Err(Failure::NotFound)),
                    Step::Done(Err(Failure::NotFound)),
                ),
                _ => (
                    Stage::Settled(Err(Failure::PersistenceError)),
                    Step::Done(Err(Failure::PersistenceError)),
                ),
            },
            Stage::EventSide => match reply {
                StoreReply::Matched(n) => if *n == 0 {
                    (Stage::Settled(Err(Failure::NotFound)), Step::Done(Err(Failure::NotFound)))
                } else {
                    (
                        Stage::UserSide,
                        Step::Ask(
                            StoreRequest::RemoveMembership {
                                user_id: self.user_id,
                                event_id: self.event_id,
                            },
                        ),
                    )
                },
                _ => (
                    Stage::Settled(Err(Failure::PersistenceError)),
                    Step::Done(Err(Failure::PersistenceError)),
                ),
            },
            Stage::UserSide => match reply {
                StoreReply::Matched(_) => (Stage::Settled(Ok(())), Step::Done(Ok(()))),
                _ => match &self.record {
                    Some(attendee) => (
                        Stage::Compensating,
                        Step::Ask(
                            StoreRequest::AddAttendee {
                                event_id: self.event_id,
                                attendee: attendee.clone(),
                            },
                        ),
                    ),
                    None => (
                        Stage::Settled(Err(Failure::PersistenceError)),
                        Step::Done(Err(Failure::PersistenceError)),
                    ),
                },
            },
            Stage::Compensating => match reply {
                StoreReply::Matched(_) => (
                    Stage::Settled(Err(Failure::PersistenceError)),
                    Step::Done(Err(Failure::PersistenceError)),
                ),
                _ => (
                    Stage::Settled(Err(Failure::PartialFailure)),
                    Step::Done(Err(Failure::PartialFailure)),
                ),
            },
            Stage::Settled(outcome) => (Stage::Settled(outcome), Step::Done(outcome)),
        };
        self.stage = stage;
        step
    }
}

/// The store and the outcome once the moves of a join from `step` on have
/// been played against a store in state `s`.
pub open spec fn join_run(s: StoreView, saga: JoinSagaView, step: StepView) -> (
    StoreView,
    Result<(), Failure>,
)
    decreases saga.stage.rank(),
{
    match step {
        StepView::Done(outcome) => (s, outcome),
        StepView::Ask(request) => {
            let (next, then) = saga.turn(s.reply(request));
            if next.stage.rank() < saga.stage.rank() {
                join_run(s.after(request), next, then)
            } else {
                (s, Err(Failure::PersistenceError))
            }
        },
    }
}

/// The store and the outcome once the moves of a leave from `step` on have
/// been played against a store in state `s`.
pub open spec fn leave_run(s: StoreView, saga: LeaveSagaView, step: StepView) -> (
    StoreView,
    Result<(), Failure>,
)
    decreases saga.stage.rank(),
{
    match step {
        StepView::Done(outcome) => (s, outcome),
        StepView::Ask(request) => {
            let (next, then) = saga.turn(s.reply(request));
            if next.stage.rank() < saga.stage.rank() {
                leave_run(s.after(request), next, then)
            } else {
                (s, Err(Failure::PersistenceError))
            }
        },
    }
}

/// Whether a join of the event by the user adds a record: the event that
/// the read finds does not list the user yet.
pub open spec fn joins_afresh(s: StoreView, event_id: DocId, user_id: DocId) -> bool {
    find_event(s.events, event_id) matches Some(e) && record_of(e.attendees, user_id) is None
}

/// What a join comes to, against a store in state `s`: the store
/// afterwards, and the outcome.
///
/// The join ends with `PersistenceError` and no change if the read fails,
/// with `NotFound` and no change if there is no such event, and with
/// `PersistenceError` and no change if the event-side write fails. Once the
/// record is on the event: if the user-side write goes through, the event is
/// on the user's list and the join succeeds; if it fails, the join ends with
/// `PersistenceError` after the record, if this join added it, is taken off
/// again, unless that write fails too, which leaves the record on the event
/// and ends the join with `PartialFailure`.
pub open spec fn joining(s: StoreView, event_id: DocId, attendee: AttendeeView) -> (
    StoreView,
    Result<(), Failure>,
) {
    let added = events_with_attendee(s.events, event_id, attendee);
    if s.fault_at(0) {
        (s.spent(1), Err(Failure::PersistenceError))
    } else if !holds_event(s.events, event_id) {
        (s.spent(1), Err(Failure::NotFound))
    } else if s.fault_at(1) {
        (s.spent(2), Err(Failure::PersistenceError))
    } else if !s.fault_at(2) {
        (
            StoreView {
                events: added,
                users: users_with_event(s.users, attendee.user_id, event_id),
                ..s.spent(3)
            },
            Ok(()),
        )
    } else if !joins_afresh(s, event_id, attendee.user_id) {
        (StoreView { events: added, ..s.spent(3) }, Err(Failure::PersistenceError))
    } else if s.fault_at(3) {
        (StoreView { events: added, ..s.spent(4) }, Err(Failure::PartialFailure))
    } else {
        (
            StoreView {
                events: events_without_attendee(added, event_id, attendee.user_id),
                ..s.spent(4)
            },
            Err(Failure::PersistenceError),
        )
    }
}

/// What a leave comes to, against a store in state `s`: the store
/// afterwards, and the outcome.
///
/// The leave ends with `PersistenceError` and no change if the read fails,
/// with `NotFound` and no change if there is no such event, and with
/// `PersistenceError` and no change if the event-side write fails. Once the
/// user is off the event: if the user-side write goes through, the event is
/// off the user's list and the leave succeeds; if it fails, the leave ends
/// with `PersistenceError` after the record that the read had found, if any,
/// is put back, unless that write fails too, which leaves the user off the
/// event and ends the leave with `PartialFailure`.
pub open spec fn leaving(s: StoreView, event_id: DocId, user_id: DocId) -> (
    StoreView,
    Result<(), Failure>,
) {
    let removed = events_without_attendee(s.events, event_id, user_id);
    if s.fault_at(0) {
        (s.spent(1), Err(Failure::PersistenceError))
    } else if !holds_event(s.events, event_id) {
        (s.spent(1), Err(Failure::NotFound))
    } else if s.fault_at(1) {
        (s.spent(2), Err(Failure::PersistenceError))
    } else if !s.fault_at(2) {
        (
            StoreView {
                events: removed,
                users: users_without_event(s.users, user_id, event_id),
                ..s.spent(3)
            },
            Ok(()),
        )
    } else {
        match record_of(find_event(s.events, event_id)->0.attendees, user_id) {
            None => (StoreView { events: removed, ..s.spent(3) }, Err(Failure::PersistenceError)),
            Some(record) => if s.fault_at(3) {
                (StoreView { events: removed, ..s.spent(4) }, Err(Failure::PartialFailure))
            } else {
                (
                    StoreView {
                        events: events_with_attendee(removed, event_id, record),
                        ..s.spent(4)
                    },
                    Err(Failure::PersistenceError),
                )
            },
        }
    }
}

/// Playing the moves of a join comes to what `joining` says.
pub proof fn lemma_join_run(s: StoreView, event_id: DocId, attendee: AttendeeView)
    ensures
        join_run(
            s,
            JoinSagaView::first(event_id, attendee).0,
            JoinSagaView::first(event_id, attendee).1,
        ) == joining(s, event_id, attendee),
{
    reveal_with_fuel(join_run, 6);
    let (saga, step) = JoinSagaView::first(event_id, attendee);
    let r = join_run(s, saga, step);
    let p = joining(s, event_id, attendee);
    lemma_find_event(s.events, event_id);
    lemma_count_events(s.events, event_id);
    assert(s.spent(1).spent(1).faults =~= s.spent(2).faults);
    assert(s.spent(2).spent(1).faults =~= s.spent(3).faults);
    assert(s.spent(3).spent(1).faults =~= s.spent(4).faults);
    assert(s.spent(1).fault_at(0) == s.fault_at(1));
    assert(s.spent(2).fault_at(0) == s.fault_at(2));
    assert(s.spent(3).fault_at(0) == s.fault_at(3));
    assert(r.1 == p.1);
    assert(r.0.faults == p.0.faults);
    assert(r.0.events == p.0.events);
    assert(r.0.users == p.0.users);
}

/// Playing the moves of a leave comes to what `leaving` says.
pub proof fn lemma_leave_run(s: StoreView, event_id: DocId, user_id: DocId)
    ensures
        leave_run(
            s,
            LeaveSagaView::first(event_id, user_id).0,
            LeaveSagaView::first(event_id, user_id).1,
        ) == leaving(s, event_id, user_id),
{
    reveal_with_fuel(leave_run, 6);
    let (saga, step) = LeaveSagaView::first(event_id, user_id);
    let r = leave_run(s, saga, step);
    let p = leaving(s, event_id, user_id);
    lemma_find_event(s.events, event_id);
    lemma_count_events(s.events, event_id);
    assert(s.spent(1).spent(1).faults =~= s.spent(2).faults);
    assert(s.spent(2).spent(1).faults =~= s.spent(3).faults);
    assert(s.spent(3).spent(1).faults =~= s.spent(4).faults);
    assert(s.spent(1).fault_at(0) == s.fault_at(1));
    assert(s.spent(2).fault_at(0) == s.fault_at(2));
    assert(s.spent(3).fault_at(0) == s.fault_at(3));
    assert(r.1 == p.1);
    assert(r.0.faults == p.0.faults);
    assert(r.0.events == p.0.events);
    assert(r.0.users == p.0.users);
}

/// What a request to join comes to: both identifiers must parse, the
/// event's first, and then the join runs as `joining` says. A malformed
/// request makes no call to the store.
pub open spec fn join_request(
    s: StoreView,
    event_id: Seq<char>,
    user_id: Seq<char>,
    name: Seq<char>,
    email: Seq<char>,
) -> (StoreView, Result<(), Failure>) {
    if !is_id_text(event_id) || !is_id_text(user_id) {
        (s, Err(Failure::InvalidInput))
    } else {
        joining(
            s,
            id_from(id_bytes(event_id)),
            AttendeeView { user_id: id_from(id_bytes(user_id)), name, email },
        )
    }
}

/// What a request to leave comes to: both identifiers must parse, and then
/// the leave runs as `leaving` says. A malformed request makes no call to the
/// store.
pub open spec fn leave_request(s: StoreView, event_id: Seq<char>, user_id: Seq<char>) -> (
    StoreView,
    Result<(), Failure>,
) {
    if !is_id_text(event_id) || !is_id_text(user_id) {
        (s, Err(Failure::InvalidInput))
    } else {
        leaving(s, id_from(id_bytes(event_id)), id_from(id_bytes(user_id)))
    }
}

/// Puts the user on the event's attendee list and the event on the user's
/// list, for an admitted caller.
pub fn join_event(
    store: &mut MemoryStore,
    context: &AuthContext,
    event_id: &str,
    user_data: &UserJoinRequest,
) -> (r: Result<(), Failure>)
    ensures
        (final(store)@, r) == join_request(
            old(store)@,
            event_id@,
            user_data.user_id@,
            user_data.name@,
            user_data.email@,
        ),
        old(store)@.valid() ==> final(store)@.valid(),
        old(store)@.set_like() ==> final(store)@.set_like(),
{
    let ghost goal = join_request(
        store@,
        event_id@,
        user_data.user_id@,
        user_data.name@,
        user_data.email@,
    );
    let (mut saga, mut step) = match JoinSaga::request(event_id, user_data) {
        Ok(started) => started,
        Err(failure) => {
            return Err(failure);
        },
    };
    proof {
        lemma_join_run(store@, saga.event_id, saga.attendee@);
    }
    loop
        invariant
            join_run(store@, saga@, step@) == goal,
            old(store)@.valid() ==> store@.valid(),
            old(store)@.set_like() ==> store@.set_like(),
            goal == join_request(
                old(store)@,
                event_id@,
                user_data.user_id@,
                user_data.name@,
                user_data.email@,
            ),
            step@ is Ask ==> !(saga.stage is Settled),
        decreases saga.stage.rank(),
    {
        match step {
            Step::Done(outcome) => {
                return outcome;
            },
            Step::Ask(request) => {
                let reply = store.execute(request);
                step = saga.advance(&reply);
            },
        }
    }
}

/// Takes the user off the event's attendee list and the event off the
/// user's list, for an admitted caller.
pub fn leave_event(
    store: &mut MemoryStore,
    context: &AuthContext,
    event_id: &str,
    user_id: &str,
) -> (r: Result<(), Failure>)
    ensures
        (final(store)@, r) == leave_request(old(store)@, event_id@, user_id@),
        old(store)@.valid() ==> final(store)@.valid(),
        old(store)@.set_like() ==> final(store)@.set_like(),
{
    let ghost goal = leave_request(store@, event_id@, user_id@);
    let (mut saga, mut step) = match LeaveSaga::request(event_id, user_id) {
        Ok(started) => started,
        Err(failure) => {
            return Err(failure);
        },
    };
    proof {
        lemma_leave_run(store@, saga.event_id, saga.user_id);
    }
    loop
        invariant
            leave_run(store@, saga@, step@) == goal,
            old(store)@.valid() ==> store@.valid(),
            old(store)@.set_like() ==> store@.set_like(),
            goal == leave_request(old(store)@, event_id@, user_id@),
            step@ is Ask ==> !(saga.stage is Settled),
        decreases saga.stage.rank(),
    {
        match step {
            Step::Done(outcome) => {
                return outcome;
            },
            Step::Ask(request) => {
                let reply = store.execute(request);
                step = saga.advance(&reply);
            },
        }
    }
}

/// The test that a text passes when it reads as an identifier.
pub open spec fn reads_as_id() -> spec_fn(Seq<char>) -> bool {
    |t: Seq<char>| is_id_text(t)
}

/// The identifiers that the well-formed texts of a list spell, in order.
/// Malformed texts are passed over.
pub open spec fn wanted_ids(ids: Seq<Seq<char>>) -> Seq<DocId> {
    ids.filter(reads_as_id()).map_values(|t: Seq<char>| id_from(id_bytes(t)))
}

/// Reads the identifiers out of a list of texts, passing over those that are
/// malformed.
pub fn select_ids(ids: &Vec<String>) -> (r: Vec<DocId>)
    ensures
        r@ == wanted_ids(texts(ids@)),
{
    let ghost all = texts(ids@);
    let mut out: Vec<DocId> = Vec::new();
    let mut i: usize = 0;
    while i < ids.len()
        invariant
            i <= ids.len(),
            all == texts(ids@),
            out@ == wanted_ids(all.take(i as int)),
        decreases ids.len() - i,
    {
        proof {
            assert(all.take(i + 1) =~= all.take(i as int).push(all[i as int]));
            all.take(i as int).lemma_filter_push(all[i as int], reads_as_id());
        }
        match DocId::parse_str(ids[i].as_str()) {
            Ok(id) => {
                proof {
                    lemma_id_from(id);
                }
                out.push(id);
                assert(out@ =~= wanted_ids(all.take(i + 1)));
            },
            Err(_) => {},
        }
        i += 1;
    }
    assert(all.take(ids.len() as int) =~= all);
    out
}

/// The identifiers to look up for a request for several events:
/// `InvalidInput` if no text of the list reads as an identifier.
pub fn wanted(event_ids: &Vec<String>) -> (r: Result<Vec<DocId>, Failure>)
    ensures
        r is Ok <==> wanted_ids(texts(event_ids@)).len() > 0,
        r matches Ok(ids) ==> ids@ == wanted_ids(texts(event_ids@)),
        r matches Err(e) ==> e == Failure::InvalidInput,
{
    let object_ids = select_ids(event_ids);
    if object_ids.len() == 0 {
        Err(Failure::InvalidInput)
    } else {
        Ok(object_ids)
    }
}

/// What a request for several events comes to: `InvalidInput` without a
/// call to the store if no text of the list reads as an identifier, else
/// `PersistenceError` if the read fails, else the stored events whose
/// identifier is among those asked for, in the store's order. Identifiers
/// that name no event are passed over.
pub open spec fn reading(s: StoreView, ids: Seq<Seq<char>>) -> (
    StoreView,
    Result<Seq<EventView>, Failure>,
) {
    let wanted = wanted_ids(ids);
    if wanted.len() == 0 {
        (s, Err(Failure::InvalidInput))
    } else if s.fault_at(0) {
        (s.spent(1), Err(Failure::PersistenceError))
    } else {
        (s.spent(1), Ok(events_among(s.events, wanted)))
    }
}

/// What the read of several documents comes to: the documents, or
/// `PersistenceError` if the read failed.
pub fn events_read<T>(outcome: Result<Vec<T>, StoreFault>) -> (r: Result<Vec<T>, Failure>)
    ensures
        r == match outcome {
            Ok(found) => Ok::<Vec<T>, Failure>(found),
            Err(_) => Err::<Vec<T>, Failure>(Failure::PersistenceError),
        },
{
    match outcome {
        Ok(found) => Ok(found),
        Err(_) => Err(Failure::PersistenceError),
    }
}

/// Reads the events with the given identifiers, for an admitted caller.
pub fn get_multiple_events(
    store: &mut MemoryStore,
    context: &AuthContext,
    event_ids: &Vec<String>,
) -> (r: Result<Vec<Event>, Failure>)
    ensures
        final(store)@ == reading(old(store)@, texts(event_ids@)).0,
        old(store)@.valid() ==> final(store)@.valid(),
        old(store)@.set_like() ==> final(store)@.set_like(),
        match r {
            Ok(found) => reading(old(store)@, texts(event_ids@)).1 == Ok::<
                Seq<EventView>,
                Failure,
            >(event_views(found@)),
            Err(failure) => reading(old(store)@, texts(event_ids@)).1 == Err::<
                Seq<EventView>,
                Failure,
            >(failure),
        },
{
    let object_ids = match wanted(event_ids) {
        Ok(ids) => ids,
        Err(failure) => {
            return Err(failure);
        },
    };
    events_read(
        match store.find_events(&object_ids) {
            Some(found) => Ok(found),
            None => Err(StoreFault),
        },
    )
}

} // verus!
