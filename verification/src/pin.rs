use crate::auth::{AuthContext, Grant};
use crate::failure::{AdmissionError, Failure};
use crate::ident::{id_bytes, id_from, is_id_text, lemma_id_from, DocId};
use crate::memory::MemoryStore;
use crate::models::EventView;
use crate::seqs::lemma_filter_none;
use crate::store::{
    count_pinned, distinct_ids, events_unpinned, events_with_pin, holds_event, is_pinned,
    lemma_count_events, lemma_same_ids, one_record_each, Step, StepView, StoreReply, StoreReplyView,
    StoreRequest, StoreRequestView, StoreView,
};
use crate::token::Privilege;
use vstd::prelude::*;

verus! {

/// Where a pin update stands: which answer it is waiting for.
#[derive(Debug, Clone, Copy)]
pub enum PinStage {
    /// Whether a transaction could be opened.
    Beginning,
    /// In the transaction: the clearing of all pins.
    Clearing,
    /// In the transaction: the write on the target.
    Setting,
    /// The commit.
    Committing,
    /// The abort that follows a failure; the failure is kept to report.
    Aborting(Failure),
    /// Without a transaction: the clearing of all pins, which must go
    /// through before the target is written.
    LooseClearing,
    /// Without a transaction: the write on the target.
    LooseSetting,
    /// Nothing: the update has ended.
    Settled(Result<(), Failure>),
}

/// One update of the pin under way.
#[derive(Debug, Clone, Copy)]
pub struct PinSaga {
    pub stage: PinStage,
    pub event_id: DocId,
    pub pinned: bool,
}

impl PinSaga {
    /// An upper bound on the calls still to make.
    pub open spec fn rank(self) -> nat {
        match self.stage {
            PinStage::Beginning => 5,
            PinStage::Clearing => 4,
            PinStage::Setting => 3,
            PinStage::Committing => 2,
            PinStage::LooseClearing => 2,
            PinStage::Aborting(_) => 1,
            PinStage::LooseSetting => 1,
            PinStage::Settled(_) => 0,
        }
    }

    /// The update moved to another stage.
    pub open spec fn at(self, stage: PinStage) -> PinSaga {
        PinSaga { stage, ..self }
    }

    /// The update moved to a stage where it awaits the answer to `request`.
    pub open spec fn ask(self, stage: PinStage, request: StoreRequestView) -> (PinSaga, StepView) {
        (self.at(stage), StepView::Ask(request))
    }

    /// The update asking for its transaction to be aborted, with the
    /// failure kept to report once that is answered.
    pub open spec fn abort(self, failure: Failure) -> (PinSaga, StepView) {
        self.ask(PinStage::Aborting(failure), StoreRequestView::AbortTransaction)
    }

    /// The update ended as given.
    pub open spec fn settle(self, outcome: Result<(), Failure>) -> (PinSaga, StepView) {
        (self.at(PinStage::Settled(outcome)), StepView::Done(outcome))
    }

    /// The write on the target.
    pub open spec fn set_target(self) -> StoreRequestView {
        StoreRequestView::SetPinned { event_id: self.event_id, pinned: self.pinned }
    }

    /// The first move: an administrator's update asks for a transaction;
    /// anyone else's ends at once with `InsufficientPrivilege`.
    pub open spec fn first(grant: Grant, event_id: DocId, pinned: bool) -> (PinSaga, StepView) {
        let saga = PinSaga { stage: PinStage::Beginning, event_id, pinned };
        if grant.privilege == Privilege::Admin {
            (saga, StepView::Ask(StoreRequestView::BeginTransaction))
        } else {
            saga.settle(Err(Failure::Admission(AdmissionError::InsufficientPrivilege)))
        }
    }

    /// The next move on the store's answer.
    ///
    /// With a transaction, every pin is cleared, the target is written and
    /// the whole is committed; any failure, and a target that matched no
    /// document, aborts the transaction first. Without one, the same two
    /// writes are made one after the other: a clearing that fails ends the
    /// update with `PersistenceError` before the target is written, and
    /// nothing is undone when the target write fails or finds no target.
    pub open spec fn turn(self, reply: StoreReplyView) -> (PinSaga, StepView) {
        match self.stage {
            PinStage::Beginning => match reply {
                StoreReplyView::Done => self.ask(
                    PinStage::Clearing,
                    StoreRequestView::UnsetAllPinned,
                ),
                _ => self.ask(PinStage::LooseClearing, StoreRequestView::UnsetAllPinned),
            },
            PinStage::Clearing => match reply {
                StoreReplyView::Matched(_) => self.ask(PinStage::Setting, self.set_target()),
                _ => self.abort(Failure::PersistenceError),
            },
            PinStage::Setting => match reply {
                StoreReplyView::Matched(n) => if n == 0 {
                    self.abort(Failure::NotFound)
                } else {
                    self.ask(PinStage::Committing, StoreRequestView::CommitTransaction)
                },
                _ => self.abort(Failure::PersistenceError),
            },
            PinStage::Committing => match reply {
                StoreReplyView::Done => self.settle(Ok(())),
                _ => self.abort(Failure::PersistenceError),
            },
            PinStage::Aborting(failure) => self.settle(Err(failure)),
            PinStage::LooseClearing => match reply {
                StoreReplyView::Matched(_) => self.ask(PinStage::LooseSetting, self.set_target()),
                _ => self.settle(Err(Failure::PersistenceError)),
            },
            PinStage::LooseSetting => match reply {
                StoreReplyView::Matched(n) => if n == 0 {
                    self.settle(Err(Failure::NotFound))
                } else {
                    self.settle(Ok(()))
                },
                _ => self.settle(Err(Failure::PersistenceError)),
            },
            PinStage::Settled(outcome) => self.settle(outcome),
        }
    }

    /// Starts the update that a request asks for. The caller must have been
    /// admitted as an administrator, which is looked at first, and the
    /// identifier must parse; else nothing is started.
    pub fn request(context: &AuthContext, event_id: &str, pinned: bool) -> (r: Result<
        (PinSaga, Step),
        Failure,
    >)
        ensures
            r is Ok <==> context@.privilege == Privilege::Admin && is_id_text(event_id@),
            r matches Err(e) ==> e == if context@.privilege != Privilege::Admin {
                Failure::Admission(AdmissionError::InsufficientPrivilege)
            } else {
                Failure::InvalidInput
            },
            r matches Ok(started) ==> (started.0, started.1@) == PinSaga::first(
                context@,
                id_from(id_bytes(event_id@)),
                pinned,
            ),
    {
        if !context.is_admin() {
            return Err(Failure::Admission(AdmissionError::InsufficientPrivilege));
        }
        let id = match DocId::parse_str(event_id) {
            Ok(id) => id,
            Err(failure) => {
                return Err(failure);
            },
        };
        proof {
            lemma_id_from(id);
        }
        Ok(PinSaga::begin(context, id, pinned))
    }

    /// Starts an update of the pin on behalf of an admitted caller.
    pub fn begin(context: &AuthContext, event_id: DocId, pinned: bool) -> (r: (PinSaga, Step))
        ensures
            (r.0, r.1@) == PinSaga::first(context@, event_id, pinned),
    {
        let saga = PinSaga { stage: PinStage::Beginning, event_id, pinned };
        if context.is_admin() {
            (saga, Step::Ask(StoreRequest::BeginTransaction))
        } else {
            let outcome = Err(Failure::Admission(AdmissionError::InsufficientPrivilege));
            (PinSaga { stage: PinStage::Settled(outcome), event_id, pinned }, Step::Done(outcome))
        }
    }

    /// Takes the store's answer to the last request and says what is next.
    pub fn advance(&mut self, reply: &StoreReply) -> (step: Step)
        ensures
            (*final(self), step@) == old(self).turn(reply@),
    {
        let target = StoreRequest::SetPinned { event_id: self.event_id, pinned: self.pinned };
        let (stage, step) = match self.stage {
            PinStage::Beginning => match reply {
                StoreReply::Done => (PinStage::Clearing, Step::Ask(StoreRequest::UnsetAllPinned)),
                _ => (PinStage::LooseClearing, Step::Ask(StoreRequest::UnsetAllPinned)),
            },
            PinStage::Clearing => match reply {
                StoreReply::Matched(_) => (PinStage::Setting, Step::Ask(target)),
                _ => (
                    PinStage::Aborting(Failure::PersistenceError),
                    Step::Ask(StoreRequest::AbortTransaction),
                ),
            },
            PinStage::Setting => match reply {
                StoreReply::Matched(n) => if *n == 0 {
                    (PinStage::Aborting(Failure::NotFound), Step::Ask(StoreRequest::AbortTransaction))
                } else {
                    (PinStage::Committing, Step::Ask(StoreRequest::CommitTransaction))
                },
                _ => (
                    PinStage::Aborting(Failure::PersistenceError),
                    Step::Ask(StoreRequest::AbortTransaction),
                ),
            },
            PinStage::Committing => match reply {
                StoreReply::Done => (PinStage::Settled(Ok(())), Step::Done(Ok(()))),
                _ => (
                    PinStage::Aborting(Failure::PersistenceError),
                    Step::Ask(StoreRequest::AbortTransaction),
                ),
            },
            PinStage::Aborting(failure) => (
                PinStage::Settled(Err(failure)),
                Step::Done(Err(failure)),
            ),
            PinStage::LooseClearing => match reply {
                StoreReply::Matched(_) => (PinStage::LooseSetting, Step::Ask(target)),
                _ => (
                    PinStage::Settled(Err(Failure::PersistenceError)),
                    Step::Done(Err(Failure::PersistenceError)),
                ),
            },
            PinStage::LooseSetting => {
                let outcome = match reply {
                    StoreReply::Matched(n) => if *n == 0 {
                        Err(Failure::NotFound)
                    } else {
                        Ok(())
                    },
                    _ => Err(Failure::PersistenceError),
                };
                (PinStage::Settled(outcome), Step::Done(outcome))
            },
            PinStage::Settled(outcome) => (PinStage::Settled(outcome), Step::Done(outcome)),
        };
        self.stage = stage;
        step
    }
}

/// The store and the outcome once the moves from `step` on have been played
/// against a store in state `s`.
pub open spec fn pin_run(s: StoreView, saga: PinSaga, step: StepView) -> (
    StoreView,
    Result<(), Failure>,
)
    decreases saga.rank(),
{
    match step {
        StepView::Done(outcome) => (s, outcome),
        StepView::Ask(request) => {
            let (next, then) = saga.turn(s.reply(request));
            if next.rank() < saga.rank() {
                pin_run(s.after(request), next, then)
            } else {
                (s, Err(Failure::PersistenceError))
            }
        },
    }
}

/// What an administrator's update of the pin comes to, against a store in
/// state `s`: the store afterwards, and the outcome.
///
/// Where a transaction opens, the update is all or nothing: on success
/// exactly the target carries the pin it was given and no other event is
/// pinned, and on any failure the documents are as before. Where none opens,
/// a clearing that fails ends the update with `PersistenceError` and no
/// change. Once the pins are cleared they stay cleared: the target is then
/// written, and the update ends with `PersistenceError` if that write fails,
/// with `NotFound` if there is no such event, and else succeeds with the
/// target alone carrying the pin it was given.
pub open spec fn pinning(s: StoreView, event_id: DocId, pinned: bool) -> (
    StoreView,
    Result<(), Failure>,
) {
    let found = holds_event(s.events, event_id);
    if !s.fault_at(0) && s.can_begin() {
        if s.fault_at(1) {
            (s.spent(3), Err(Failure::PersistenceError))
        } else if s.fault_at(2) {
            (s.spent(4), Err(Failure::PersistenceError))
        } else if !found {
            (s.spent(4), Err(Failure::NotFound))
        } else if s.fault_at(3) {
            (s.spent(5), Err(Failure::PersistenceError))
        } else {
            (
                StoreView {
                    events: events_with_pin(events_unpinned(s.events), event_id, pinned),
                    ..s.spent(4)
                },
                Ok(()),
            )
        }
    } else {
        let cleared = events_unpinned(s.events);
        if s.fault_at(1) {
            (s.spent(2), Err(Failure::PersistenceError))
        } else if s.fault_at(2) {
            (StoreView { events: cleared, ..s.spent(3) }, Err(Failure::PersistenceError))
        } else if !found {
            (StoreView { events: cleared, ..s.spent(3) }, Err(Failure::NotFound))
        } else {
            (
                StoreView { events: events_with_pin(cleared, event_id, pinned), ..s.spent(3) },
                Ok(()),
            )
        }
    }
}

/// Playing the moves of an update comes to what `pinning` says.
pub proof fn lemma_pin_run(s: StoreView, event_id: DocId, pinned: bool)
    ensures
        pin_run(
            s,
            PinSaga { stage: PinStage::Beginning, event_id, pinned },
            StepView::Ask(StoreRequestView::BeginTransaction),
        ) == pinning(s, event_id, pinned),
{
    reveal_with_fuel(pin_run, 7);
    let saga = PinSaga { stage: PinStage::Beginning, event_id, pinned };
    let r = pin_run(s, saga, StepView::Ask(StoreRequestView::BeginTransaction));
    let p = pinning(s, event_id, pinned);
    lemma_count_events(s.events, event_id);
    lemma_count_events(events_unpinned(s.events), event_id);
    lemma_unpinned_holds(s.events, event_id);
    assert(s.spent(1).spent(1).faults =~= s.spent(2).faults);
    assert(s.spent(2).spent(1).faults =~= s.spent(3).faults);
    assert(s.spent(3).spent(1).faults =~= s.spent(4).faults);
    assert(s.spent(4).spent(1).faults =~= s.spent(5).faults);
    assert(s.spent(1).fault_at(0) == s.fault_at(1));
    assert(s.spent(2).fault_at(0) == s.fault_at(2));
    assert(s.spent(3).fault_at(0) == s.fault_at(3));
    assert(s.spent(4).fault_at(0) == s.fault_at(4));
    if !holds_event(s.events, event_id) {
        assert(events_with_pin(s.events, event_id, pinned) =~= s.events);
        assert(events_with_pin(events_unpinned(s.events), event_id, pinned) =~= events_unpinned(
            s.events,
        ));
    }
    assert(r.1 == p.1);
    assert(r.0.faults == p.0.faults);
    assert(r.0.events == p.0.events);
    assert(r.0.snapshot == p.0.snapshot);
}

/// Clearing the pins changes no identifier.
pub proof fn lemma_unpinned_holds(events: Seq<EventView>, event_id: DocId)
    ensures
        holds_event(events_unpinned(events), event_id) <==> holds_event(events, event_id),
{
    let cleared = events_unpinned(events);
    if holds_event(events, event_id) {
        let i = choose|i: int| 0 <= i < events.len() && (#[trigger] events[i]).id == Some(event_id);
        assert(cleared[i].id == Some(event_id));
    }
    if holds_event(cleared, event_id) {
        let i = choose|i: int|
            0 <= i < cleared.len() && (#[trigger] cleared[i]).id == Some(event_id);
        assert(events[i].id == Some(event_id));
    }
}

/// What a request to update the pin comes to: the caller must have been
/// admitted as an administrator, then the event's identifier must parse, and
/// then the update runs as `pinning` says. A refused or malformed request
/// makes no call to the store.
pub open spec fn pin_update(s: StoreView, grant: Grant, event_id: Seq<char>, pinned: bool) -> (
    StoreView,
    Result<(), Failure>,
) {
    if grant.privilege != Privilege::Admin {
        (s, Err(Failure::Admission(AdmissionError::InsufficientPrivilege)))
    } else if !is_id_text(event_id) {
        (s, Err(Failure::InvalidInput))
    } else {
        pinning(s, id_from(id_bytes(event_id)), pinned)
    }
}

/// Makes the event the only pinned one, or clears its pin, for a caller
/// admitted as an administrator.
pub fn update_pinned(
    store: &mut MemoryStore,
    context: &AuthContext,
    event_id: &str,
    pinned: bool,
) -> (r: Result<(), Failure>)
    ensures
        (final(store)@, r) == pin_update(old(store)@, context@, event_id@, pinned),
        old(store)@.valid() ==> final(store)@.valid(),
        old(store)@.set_like() ==> final(store)@.set_like(),
{
    let (mut saga, mut step) = match PinSaga::request(context, event_id, pinned) {
        Ok(started) => started,
        Err(failure) => {
            return Err(failure);
        },
    };
    proof {
        lemma_pin_run(store@, saga.event_id, pinned);
    }
    loop
        invariant
            pin_run(store@, saga, step@) == pin_update(old(store)@, context@, event_id@, pinned),
            old(store)@.valid() ==> store@.valid(),
            old(store)@.set_like() ==> store@.set_like(),
            step@ is Ask ==> !(saga.stage is Settled),
        decreases saga.rank(),
    {
        match step {
            Step::Done(outcome) => {
                return outcome;
            },
            Step::Ask(request) => {
                let reply = store.execute(request);
                step = saga.advance(&reply);
            },
        }
    }
}

/// No two events of the list are pinned.
pub open spec fn at_most_one_pinned(events: Seq<EventView>) -> bool {
    forall|i: int, j: int|
        0 <= i < events.len() && 0 <= j < events.len() && (#[trigger] events[i]).pinned && (
        #[trigger] events[j]).pinned ==> i == j
}

/// The pinned events of the list are exactly those with the identifier
/// `target`; with `None`, no event is pinned.
pub open spec fn pinned_exactly(events: Seq<EventView>, target: Option<DocId>) -> bool {
    forall|i: int|
        0 <= i < events.len() ==> ((#[trigger] events[i]).pinned <==> target is Some && events[i].id
            == target)
}

/// One call to update the pin.
pub struct PinCall {
    pub event_id: DocId,
    pub pinned: bool,
}

impl PinCall {
    /// The event that is pinned once the call has succeeded, if any.
    pub open spec fn target(self) -> Option<DocId> {
        if self.pinned {
            Some(self.event_id)
        } else {
            None
        }
    }
}

/// The store after an administrator has made the calls, one after the other.
pub open spec fn pins_run(s: StoreView, calls: Seq<PinCall>) -> StoreView
    decreases calls.len(),
{
    if calls.len() == 0 {
        s
    } else {
        pinning(pins_run(s, calls.drop_last()), calls.last().event_id, calls.last().pinned).0
    }
}

/// Whether each of the calls opens a transaction.
pub open spec fn pins_transactional(s: StoreView, calls: Seq<PinCall>) -> bool
    decreases calls.len(),
{
    calls.len() == 0 || {
        let before = pins_run(s, calls.drop_last());
        pins_transactional(s, calls.drop_last()) && !before.fault_at(0) && before.can_begin()
    }
}

/// The last of the calls that succeeds.
pub open spec fn last_success(s: StoreView, calls: Seq<PinCall>) -> Option<PinCall>
    decreases calls.len(),
{
    if calls.len() == 0 {
        None
    } else if pinning(
        pins_run(s, calls.drop_last()),
        calls.last().event_id,
        calls.last().pinned,
    ).1 is Ok {
        Some(calls.last())
    } else {
        last_success(s, calls.drop_last())
    }
}

/// A list with at most one pinned event counts at most one.
pub proof fn lemma_at_most_one_counts(events: Seq<EventView>)
    requires
        at_most_one_pinned(events),
    ensures
        count_pinned(events) <= 1,
    decreases events.len(),
{
    reveal(Seq::filter);
    if events.len() > 0 {
        let rest = events.drop_last();
        assert forall|i: int, j: int|
            0 <= i < rest.len() && 0 <= j < rest.len() && (#[trigger] rest[i]).pinned && (
            #[trigger] rest[j]).pinned implies i == j by {
            assert(events[i].pinned && events[j].pinned);
        }
        if events.last().pinned {
            assert forall|k: int| 0 <= k < rest.len() implies !is_pinned()(#[trigger] rest[k]) by {
                if rest[k].pinned {
                    assert(events[k].pinned && events[events.len() - 1].pinned);
                }
            }
            lemma_filter_none(rest, is_pinned());
        } else {
            lemma_at_most_one_counts(rest);
        }
    }
}

/// With a transaction, an update of the pin is all or nothing: after a
/// success exactly the target is pinned, or no event if the pin was cleared;
/// after a failure every event is as it was. Either way no identifier
/// changes, no user changes, and no transaction stays open.
pub proof fn law_transactional_pin_is_atomic(s: StoreView, event_id: DocId, pinned: bool)
    requires
        !s.fault_at(0),
        s.can_begin(),
    ensures
        ({
            let (t, outcome) = pinning(s, event_id, pinned);
            &&& t.snapshot is None
            &&& t.transactional
            &&& t.users == s.users
            &&& t.events.len() == s.events.len()
            &&& forall|i: int| 0 <= i < s.events.len() ==> (#[trigger] t.events[i]).id == s.events[i].id
            &&& outcome is Ok ==> holds_event(s.events, event_id) && pinned_exactly(
                t.events,
                (PinCall { event_id, pinned }).target(),
            )
            &&& outcome is Err ==> t.events == s.events
        }),
{
}

/// With or without a transaction, and however it ends, an update of the
/// pin leaves at most one event pinned where at most one was, and one that
/// succeeds leaves exactly its target pinned, or no event if it cleared the
/// pin.
pub proof fn law_pin_keeps_pins_exclusive(s: StoreView, event_id: DocId, pinned: bool)
    requires
        distinct_ids(s.events),
        at_most_one_pinned(s.events),
    ensures
        distinct_ids(pinning(s, event_id, pinned).0.events),
        at_most_one_pinned(pinning(s, event_id, pinned).0.events),
        pinning(s, event_id, pinned).1 is Ok ==> pinned_exactly(
            pinning(s, event_id, pinned).0.events,
            (PinCall { event_id, pinned }).target(),
        ),
{
    let (t, outcome) = pinning(s, event_id, pinned);
    let cleared = events_unpinned(s.events);
    lemma_same_ids(s.events, cleared);
    lemma_same_ids(cleared, events_with_pin(cleared, event_id, pinned));
    if outcome is Ok {
        assert(t.events == events_with_pin(cleared, event_id, pinned));
        assert(pinned_exactly(t.events, (PinCall { event_id, pinned }).target()));
        assert forall|i: int, j: int|
            0 <= i < t.events.len() && 0 <= j < t.events.len() && (#[trigger] t.events[i]).pinned
                && (#[trigger] t.events[j]).pinned implies i == j by {
            if i < j {
                assert(t.events[i].id != t.events[j].id);
            }
            if j < i {
                assert(t.events[j].id != t.events[i].id);
            }
        }
    }
}

/// After any sequence of updates, whichever of them found a transaction, at
/// most one event is pinned.
pub proof fn law_pins_never_exceed_one(s: StoreView, calls: Seq<PinCall>)
    requires
        distinct_ids(s.events),
        at_most_one_pinned(s.events),
    ensures
        distinct_ids(pins_run(s, calls).events),
        at_most_one_pinned(pins_run(s, calls).events),
        count_pinned(pins_run(s, calls).events) <= 1,
    decreases calls.len(),
{
    if calls.len() > 0 {
        law_pins_never_exceed_one(s, calls.drop_last());
        law_pin_keeps_pins_exclusive(
            pins_run(s, calls.drop_last()),
            calls.last().event_id,
            calls.last().pinned,
        );
    }
    lemma_at_most_one_counts(pins_run(s, calls).events);
}

/// After any sequence of updates that each ran in a transaction, at most one
/// event is pinned, and the pins are those that the last successful update
/// left: its target alone, or none if it cleared the pin. If none succeeded,
/// the events are as they were at the start.
pub proof fn law_pins_are_exclusive(s: StoreView, calls: Seq<PinCall>)
    requires
        distinct_ids(s.events),
        at_most_one_pinned(s.events),
        pins_transactional(s, calls),
    ensures
        at_most_one_pinned(pins_run(s, calls).events),
        count_pinned(pins_run(s, calls).events) <= 1,
        distinct_ids(pins_run(s, calls).events),
        match last_success(s, calls) {
            Some(call) => pinned_exactly(pins_run(s, calls).events, call.target()),
            None => pins_run(s, calls).events == s.events,
        },
    decreases calls.len(),
{
    if calls.len() > 0 {
        let before = pins_run(s, calls.drop_last());
        let call = calls.last();
        law_pins_are_exclusive(s, calls.drop_last());
        law_transactional_pin_is_atomic(before, call.event_id, call.pinned);
        let (t, outcome) = pinning(before, call.event_id, call.pinned);
        assert(t == pins_run(s, calls));
        assert(distinct_ids(t.events)) by {
            assert forall|i: int, j: int| 0 <= i < j < t.events.len() implies (
            #[trigger] t.events[i]).id != (#[trigger] t.events[j]).id by {
                assert(before.events[i].id != before.events[j].id);
            }
        }
        if outcome is Ok {
            assert(at_most_one_pinned(t.events)) by {
                assert forall|i: int, j: int|
                    0 <= i < t.events.len() && 0 <= j < t.events.len() && (
                    #[trigger] t.events[i]).pinned && (#[trigger] t.events[j]).pinned implies i
                    == j by {
                    if i < j {
                        assert(t.events[i].id != t.events[j].id);
                    }
                    if j < i {
                        assert(t.events[j].id != t.events[i].id);
                    }
                }
            }
        }
    }
    lemma_at_most_one_counts(pins_run(s, calls).events);
}

/// An update of the pin leaves a valid store valid.
pub proof fn law_pinning_keeps_the_store_valid(s: StoreView, event_id: DocId, pinned: bool)
    requires
        s.valid(),
    ensures
        pinning(s, event_id, pinned).0.valid(),
{
    let t = pinning(s, event_id, pinned).0;
    lemma_same_ids(s.events, events_unpinned(s.events));
    lemma_same_ids(s.events, events_with_pin(s.events, event_id, pinned));
    lemma_same_ids(
        events_unpinned(s.events),
        events_with_pin(events_unpinned(s.events), event_id, pinned),
    );
}

/// An update of the pin leaves every list a set: it touches no attendee
/// list and no user.
pub proof fn law_pinning_keeps_lists_sets(s: StoreView, event_id: DocId, pinned: bool)
    requires
        s.set_like(),
    ensures
        pinning(s, event_id, pinned).0.set_like(),
        pinning(s, event_id, pinned).0.users == s.users,
        forall|i: int|
            0 <= i < s.events.len() ==> (#[trigger] pinning(
                s,
                event_id,
                pinned,
            ).0.events[i]).attendees == s.events[i].attendees,
{
    let t = pinning(s, event_id, pinned).0;
    assert forall|i: int| 0 <= i < s.events.len() implies (#[trigger] t.events[i]).attendees
        == s.events[i].attendees by {}
    assert forall|i: int| 0 <= i < t.events.len() implies one_record_each(
        (#[trigger] t.events[i]).attendees,
    ) by {
        assert(t.events[i].attendees == s.events[i].attendees);
    }
}

} // verus!
