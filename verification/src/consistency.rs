use crate::failure::Failure;
use crate::ident::DocId;
use crate::membership::{joining, joins_afresh, leaving};
use crate::models::{not_of, of_user, other_than, same_as, AttendeeView, EventView, UserView};
use crate::seqs::{lemma_filter_all, lemma_filter_member, lemma_one_match};
use crate::store::{
    distinct_ids, events_with_attendee, events_without_attendee, find_event, holds_event,
    holds_user, lemma_find_event, lemma_same_ids, lemma_same_ids_hold, lemma_same_user_ids,
    lemma_same_user_ids_hold, lemma_with_attendee_is_a_set, lemma_with_event_is_a_set,
    lemma_without_attendee_is_a_set, lemma_without_event_is_a_set, named_once, one_record_each,
    record_of, users_with_event, users_without_event, StoreView,
};
use vstd::prelude::*;

verus! {

/// Whether every event with the identifier lists the user, and there is one.
pub open spec fn on_event(events: Seq<EventView>, event_id: DocId, user_id: DocId) -> bool {
    &&& holds_event(events, event_id)
    &&& forall|i: int|
        0 <= i < events.len() && (#[trigger] events[i]).id == Some(event_id)
            ==> events[i].has_attendee(user_id)
}

/// Whether no event with the identifier lists the user.
pub open spec fn off_event(events: Seq<EventView>, event_id: DocId, user_id: DocId) -> bool {
    forall|i: int|
        0 <= i < events.len() && (#[trigger] events[i]).id == Some(event_id)
            ==> !events[i].has_attendee(user_id)
}

/// Whether every user with the identifier lists the event, and there is one.
pub open spec fn on_user(users: Seq<UserView>, user_id: DocId, event_id: DocId) -> bool {
    &&& holds_user(users, user_id)
    &&& forall|i: int|
        0 <= i < users.len() && (#[trigger] users[i]).id == Some(user_id) ==> users[i].attends(
            event_id,
        )
}

/// Whether no user with the identifier lists the event.
pub open spec fn off_user(users: Seq<UserView>, user_id: DocId, event_id: DocId) -> bool {
    forall|i: int|
        0 <= i < users.len() && (#[trigger] users[i]).id == Some(user_id) ==> !users[i].attends(
            event_id,
        )
}

/// Whether the two sides agree on a user and an event: where both exist,
/// the event lists the user exactly when the user lists the event.
pub open spec fn agree(s: StoreView, event_id: DocId, user_id: DocId) -> bool {
    s.has_event(event_id) && s.has_user(user_id) ==> (on_event(s.events, event_id, user_id)
        <==> on_user(s.users, user_id, event_id))
}

/// What a search for a user's record finds is a record of that user, and it
/// finds one exactly when the list has one.
pub proof fn lemma_record_of(attendees: Seq<AttendeeView>, user_id: DocId)
    ensures
        record_of(attendees, user_id) matches Some(a) ==> a.user_id == user_id
            && attendees.contains(a),
        record_of(attendees, user_id) is Some <==> exists|k: int|
            0 <= k < attendees.len() && (#[trigger] attendees[k]).user_id == user_id,
    decreases attendees.len(),
{
    if attendees.len() > 0 {
        let rest = attendees.drop_first();
        lemma_record_of(rest, user_id);
        if attendees[0].user_id != user_id {
            if record_of(rest, user_id) is Some {
                let a = record_of(rest, user_id)->0;
                let k = choose|k: int| 0 <= k < rest.len() && rest[k] == a;
                assert(attendees[k + 1] == a);
            }
            if exists|k: int|
                0 <= k < attendees.len() && (#[trigger] attendees[k]).user_id == user_id {
                let k = choose|k: int|
                    0 <= k < attendees.len() && (#[trigger] attendees[k]).user_id == user_id;
                assert(rest[k - 1].user_id == user_id);
            }
            if exists|k: int| 0 <= k < rest.len() && (#[trigger] rest[k]).user_id == user_id {
                let k = choose|k: int| 0 <= k < rest.len() && (#[trigger] rest[k]).user_id == user_id;
                assert(attendees[k + 1].user_id == user_id);
            }
        } else {
            assert(attendees[0] == attendees[0]);
        }
    }
}

/// An event after a set-semantics add lists the user.
pub proof fn lemma_with_attendee(e: EventView, attendee: AttendeeView)
    ensures
        e.with_attendee(attendee).has_attendee(attendee.user_id),
        e.has_attendee(attendee.user_id) ==> e.with_attendee(attendee) == e,
{
    if !e.has_attendee(attendee.user_id) {
        let after = e.with_attendee(attendee);
        assert(after.attendees == e.attendees.push(attendee));
        assert(after.attendees[after.attendees.len() - 1].user_id == attendee.user_id);
    }
}

/// An event after the user is taken off does not list the user, and lists
/// everyone else as before.
pub proof fn lemma_without_attendee(e: EventView, user_id: DocId)
    ensures
        !e.without_attendee(user_id).has_attendee(user_id),
        !e.has_attendee(user_id) ==> e.without_attendee(user_id) == e,
        forall|a: AttendeeView|
            a.user_id != user_id ==> (e.without_attendee(user_id).attendees.contains(a)
                <==> e.attendees.contains(a)),
{
    let kept = e.attendees.filter(not_of(user_id));
    if e.without_attendee(user_id).has_attendee(user_id) {
        let k = choose|k: int| 0 <= k < kept.len() && (#[trigger] kept[k]).user_id == user_id;
        assert(kept.contains(kept[k]));
        lemma_filter_member(e.attendees, not_of(user_id), kept[k]);
    }
    if !e.has_attendee(user_id) {
        lemma_filter_all(e.attendees, not_of(user_id));
    }
    assert forall|a: AttendeeView| a.user_id != user_id implies (kept.contains(a)
        <==> e.attendees.contains(a)) by {
        lemma_filter_member(e.attendees, not_of(user_id), a);
    }
}

/// An event that does not list the user is, after the user's record is
/// added and taken off again, as it was.
pub proof fn lemma_add_then_remove(e: EventView, attendee: AttendeeView)
    requires
        !e.has_attendee(attendee.user_id),
    ensures
        e.with_attendee(attendee).without_attendee(attendee.user_id) == e,
{
    let keep = not_of(attendee.user_id);
    e.attendees.lemma_filter_push(attendee, keep);
    assert forall|k: int| 0 <= k < e.attendees.len() implies keep(#[trigger] e.attendees[k]) by {}
    lemma_filter_all(e.attendees, keep);
}

/// Adding a user's record to an event changes nothing for another user.
pub proof fn lemma_with_attendee_spares(e: EventView, attendee: AttendeeView, other: DocId)
    requires
        other != attendee.user_id,
    ensures
        e.with_attendee(attendee).has_attendee(other) == e.has_attendee(other),
{
    let after = e.with_attendee(attendee);
    if e.has_attendee(other) {
        let k = choose|k: int|
            0 <= k < e.attendees.len() && (#[trigger] e.attendees[k]).user_id == other;
        assert(after.attendees[k].user_id == other);
    }
    if after.has_attendee(other) {
        let k = choose|k: int|
            0 <= k < after.attendees.len() && (#[trigger] after.attendees[k]).user_id == other;
        assert(k < e.attendees.len());
        assert(e.attendees[k].user_id == other);
    }
}

/// Taking a user off an event changes nothing for another user.
pub proof fn lemma_without_attendee_spares(e: EventView, user_id: DocId, other: DocId)
    requires
        other != user_id,
    ensures
        e.without_attendee(user_id).has_attendee(other) == e.has_attendee(other),
{
    let after = e.without_attendee(user_id);
    lemma_without_attendee(e, user_id);
    if e.has_attendee(other) {
        let k = choose|k: int|
            0 <= k < e.attendees.len() && (#[trigger] e.attendees[k]).user_id == other;
        assert(e.attendees.contains(e.attendees[k]));
        assert(after.attendees.contains(e.attendees[k]));
        let j = choose|j: int| 0 <= j < after.attendees.len() && after.attendees[j] == e.attendees[k];
        assert(after.attendees[j].user_id == other);
    }
    if after.has_attendee(other) {
        let k = choose|k: int|
            0 <= k < after.attendees.len() && (#[trigger] after.attendees[k]).user_id == other;
        assert(after.attendees.contains(after.attendees[k]));
        assert(e.attendees.contains(after.attendees[k]));
        let j = choose|j: int| 0 <= j < e.attendees.len() && e.attendees[j] == after.attendees[k];
        assert(e.attendees[j].user_id == other);
    }
}

/// A user after a set-semantics add lists the event.
pub proof fn lemma_with_event(u: UserView, event_id: DocId)
    ensures
        u.with_event(event_id).attends(event_id),
        u.attends(event_id) ==> u.with_event(event_id) == u,
{
    if !u.attends(event_id) {
        let list = u.attending_events.push(event_id);
        assert(list[list.len() - 1] == event_id);
    }
}

/// A user after the event is taken off does not list it, and lists every
/// other event as before.
pub proof fn lemma_without_event(u: UserView, event_id: DocId)
    ensures
        !u.without_event(event_id).attends(event_id),
        !u.attends(event_id) ==> u.without_event(event_id) == u,
        forall|e: DocId|
            e != event_id ==> (u.without_event(event_id).attends(e) <==> u.attends(e)),
{
    let kept = u.attending_events.filter(other_than(event_id));
    lemma_filter_member(u.attending_events, other_than(event_id), event_id);
    if !u.attends(event_id) {
        assert forall|k: int| 0 <= k < u.attending_events.len() implies other_than(event_id)(
            #[trigger] u.attending_events[k],
        ) by {
            assert(u.attending_events.contains(u.attending_events[k]));
        }
        lemma_filter_all(u.attending_events, other_than(event_id));
    }
    assert forall|e: DocId| e != event_id implies (kept.contains(e)
        <==> u.attending_events.contains(e)) by {
        lemma_filter_member(u.attending_events, other_than(event_id), e);
    }
}

/// Adding an event to a user's list changes nothing for another event.
pub proof fn lemma_with_event_spares(u: UserView, event_id: DocId, other: DocId)
    requires
        other != event_id,
    ensures
        u.with_event(event_id).attends(other) == u.attends(other),
{
    let after = u.with_event(event_id);
    if u.attends(other) {
        let k = choose|k: int| 0 <= k < u.attending_events.len() && u.attending_events[k] == other;
        assert(after.attending_events[k] == other);
    }
    if after.attends(other) {
        let k = choose|k: int|
            0 <= k < after.attending_events.len() && after.attending_events[k] == other;
        assert(k < u.attending_events.len());
        assert(u.attending_events[k] == other);
    }
}

/// After a join that succeeds, the event lists the user, and if the user
/// exists, the user lists the event.
pub proof fn law_join_links_both_sides(s: StoreView, event_id: DocId, attendee: AttendeeView)
    requires
        joining(s, event_id, attendee).1 is Ok,
    ensures
        on_event(joining(s, event_id, attendee).0.events, event_id, attendee.user_id),
        s.has_user(attendee.user_id) ==> on_user(
            joining(s, event_id, attendee).0.users,
            attendee.user_id,
            event_id,
        ),
{
    let t = joining(s, event_id, attendee).0;
    assert forall|i: int|
        0 <= i < t.events.len() && (#[trigger] t.events[i]).id == Some(
            event_id,
        ) implies t.events[i].has_attendee(attendee.user_id) by {
        lemma_with_attendee(s.events[i], attendee);
    }
    let i = choose|i: int| 0 <= i < s.events.len() && (#[trigger] s.events[i]).id == Some(event_id);
    assert(t.events[i].id == Some(event_id));
    if s.has_user(attendee.user_id) {
        assert forall|i: int|
            0 <= i < t.users.len() && (#[trigger] t.users[i]).id == Some(
                attendee.user_id,
            ) implies t.users[i].attends(event_id) by {
            lemma_with_event(s.users[i], event_id);
        }
        let j = choose|j: int|
            0 <= j < s.users.len() && (#[trigger] s.users[j]).id == Some(attendee.user_id);
        assert(t.users[j].id == Some(attendee.user_id));
    }
}

/// A first join records what was given: when a user who is not yet on the
/// event's list joins and the join succeeds, the event lists the very
/// record, name and address, that the join carried.
pub proof fn law_first_join_records_what_was_given(
    s: StoreView,
    event_id: DocId,
    attendee: AttendeeView,
)
    requires
        distinct_ids(s.events),
        joins_afresh(s, event_id, attendee.user_id),
        joining(s, event_id, attendee).1 is Ok,
    ensures
        forall|i: int|
            0 <= i < s.events.len() && s.events[i].id == Some(event_id) ==> (#[trigger] joining(
                s,
                event_id,
                attendee,
            ).0.events[i]).attendees == s.events[i].attendees.push(attendee),
{
    let t = joining(s, event_id, attendee).0;
    lemma_find_event(s.events, event_id);
    let found = find_event(s.events, event_id)->0;
    let at = choose|i: int| 0 <= i < s.events.len() && s.events[i] == found;
    lemma_record_of(found.attendees, attendee.user_id);
    assert forall|i: int| 0 <= i < s.events.len() && s.events[i].id == Some(event_id) implies (
    #[trigger] t.events[i]).attendees == s.events[i].attendees.push(attendee) by {
        if i < at {
            assert(s.events[i].id != s.events[at].id);
        }
        if at < i {
            assert(s.events[at].id != s.events[i].id);
        }
    }
}

/// Once a join has succeeded, the same join again changes no event and no
/// user, however it ends.
pub proof fn law_join_is_idempotent(s: StoreView, event_id: DocId, attendee: AttendeeView)
    requires
        joining(s, event_id, attendee).1 is Ok,
    ensures
        joining(joining(s, event_id, attendee).0, event_id, attendee).0.events == joining(
            s,
            event_id,
            attendee,
        ).0.events,
        joining(joining(s, event_id, attendee).0, event_id, attendee).0.users == joining(
            s,
            event_id,
            attendee,
        ).0.users,
        joining(joining(s, event_id, attendee).0, event_id, attendee).1 != Err::<(), Failure>(
            Failure::PartialFailure,
        ),
{
    let t = joining(s, event_id, attendee).0;
    let u = joining(t, event_id, attendee).0;
    law_join_links_both_sides(s, event_id, attendee);
    lemma_find_event(t.events, event_id);
    let found = find_event(t.events, event_id)->0;
    let i = choose|i: int| 0 <= i < t.events.len() && t.events[i] == found;
    assert(t.events[i].has_attendee(attendee.user_id));
    lemma_record_of(found.attendees, attendee.user_id);
    assert(!joins_afresh(t, event_id, attendee.user_id));
    let again = events_with_attendee(t.events, event_id, attendee);
    assert forall|i: int| 0 <= i < t.events.len() implies again[i] == t.events[i] by {
        lemma_with_attendee(s.events[i], attendee);
        lemma_with_attendee(t.events[i], attendee);
    }
    assert(again =~= t.events);
    let relinked = users_with_event(t.users, attendee.user_id, event_id);
    assert forall|i: int| 0 <= i < t.users.len() implies relinked[i] == t.users[i] by {
        lemma_with_event(s.users[i], event_id);
        lemma_with_event(t.users[i], event_id);
    }
    assert(relinked =~= t.users);
}

/// When the user-side write of a join fails, and the write that takes the
/// added record off again, if one is needed, goes through, the join ends
/// with `PersistenceError` and every event and user is as before: a user
/// who was on neither side is on neither side.
pub proof fn law_failed_join_is_compensated(s: StoreView, event_id: DocId, attendee: AttendeeView)
    requires
        distinct_ids(s.events),
        s.has_event(event_id),
        !s.fault_at(0),
        !s.fault_at(1),
        s.fault_at(2),
        joins_afresh(s, event_id, attendee.user_id) ==> !s.fault_at(3),
    ensures
        joining(s, event_id, attendee).1 == Err::<(), Failure>(Failure::PersistenceError),
        joining(s, event_id, attendee).0.events == s.events,
        joining(s, event_id, attendee).0.users == s.users,
{
    let t = joining(s, event_id, attendee).0;
    let user_id = attendee.user_id;
    lemma_find_event(s.events, event_id);
    let found = find_event(s.events, event_id)->0;
    let at = choose|i: int| 0 <= i < s.events.len() && s.events[i] == found;
    lemma_record_of(found.attendees, user_id);
    assert forall|i: int| 0 <= i < s.events.len() implies t.events[i] == s.events[i] by {
        if s.events[i].id == Some(event_id) {
            if i < at {
                assert(s.events[i].id != s.events[at].id);
            }
            if at < i {
                assert(s.events[at].id != s.events[i].id);
            }
            assert(s.events[i] == found);
            if joins_afresh(s, event_id, user_id) {
                lemma_add_then_remove(found, attendee);
            } else {
                lemma_with_attendee(found, attendee);
            }
        }
    }
    assert(t.events =~= s.events);
}

/// A join that fails leaves every event and user as before, unless it ends
/// with `PartialFailure`, which leaves the record on the event and no more.
pub proof fn law_join_is_all_or_nothing(s: StoreView, event_id: DocId, attendee: AttendeeView)
    requires
        distinct_ids(s.events),
    ensures
        joining(s, event_id, attendee).0.users == if joining(s, event_id, attendee).1 is Ok {
            users_with_event(s.users, attendee.user_id, event_id)
        } else {
            s.users
        },
        joining(s, event_id, attendee).0.events == if joining(s, event_id, attendee).1 is Ok
            || joining(s, event_id, attendee).1 == Err::<(), Failure>(Failure::PartialFailure) {
            events_with_attendee(s.events, event_id, attendee)
        } else {
            s.events
        },
{
    let (t, outcome) = joining(s, event_id, attendee);
    if !s.fault_at(0) && s.has_event(event_id) && !s.fault_at(1) && s.fault_at(2) && outcome
        != Err::<(), Failure>(Failure::PartialFailure) {
        law_failed_join_is_compensated(s, event_id, attendee);
    }
}

/// A leave by a user who is on neither side, against a store that suffers no
/// fault, changes no document, and succeeds if the event exists and ends
/// with `NotFound` if it does not.
pub proof fn law_leave_without_join_is_a_no_op(s: StoreView, event_id: DocId, user_id: DocId)
    requires
        s.faults.len() == 0,
        off_event(s.events, event_id, user_id),
        off_user(s.users, user_id, event_id),
    ensures
        leaving(s, event_id, user_id).0 == s,
        leaving(s, event_id, user_id).1 == if s.has_event(event_id) {
            Ok::<(), Failure>(())
        } else {
            Err::<(), Failure>(Failure::NotFound)
        },
{
    let t = leaving(s, event_id, user_id).0;
    assert forall|i: int| 0 <= i < s.events.len() implies events_without_attendee(
        s.events,
        event_id,
        user_id,
    )[i] == s.events[i] by {
        lemma_without_attendee(s.events[i], user_id);
    }
    assert forall|i: int| 0 <= i < s.users.len() implies users_without_event(
        s.users,
        user_id,
        event_id,
    )[i] == s.users[i] by {
        lemma_without_event(s.users[i], event_id);
    }
    assert(t.events =~= s.events);
    assert(t.users =~= s.users);
    assert(t.faults =~= s.faults);
}

/// A leave, however it ends, touches no record of another user: every event
/// lists the same records of other users as before, events other than the
/// one left are as they were, and so are the users other than the one
/// leaving.
pub proof fn law_leave_spares_others(s: StoreView, event_id: DocId, user_id: DocId)
    ensures
        ({
            let t = leaving(s, event_id, user_id).0;
            &&& t.events.len() == s.events.len()
            &&& t.users.len() == s.users.len()
            &&& forall|i: int, a: AttendeeView|
                0 <= i < s.events.len() && a.user_id != user_id ==> (#[trigger] t.events[i].attendees.contains(
                    a,
                ) <==> s.events[i].attendees.contains(a))
            &&& forall|i: int|
                0 <= i < s.events.len() && s.events[i].id != Some(event_id) ==> #[trigger] t.events[i]
                    == s.events[i]
            &&& forall|i: int|
                0 <= i < s.users.len() && s.users[i].id != Some(user_id) ==> #[trigger] t.users[i]
                    == s.users[i]
        }),
{
    let t = leaving(s, event_id, user_id).0;
    let removed = events_without_attendee(s.events, event_id, user_id);
    lemma_find_event(s.events, event_id);
    assert forall|i: int, a: AttendeeView|
        0 <= i < s.events.len() && a.user_id != user_id implies (#[trigger] t.events[i].attendees.contains(
        a,
    ) <==> s.events[i].attendees.contains(a)) by {
        lemma_without_attendee(s.events[i], user_id);
        if t.events[i] != s.events[i] && t.events[i] != removed[i] {
            let record = record_of(find_event(s.events, event_id)->0.attendees, user_id)->0;
            lemma_record_of(find_event(s.events, event_id)->0.attendees, user_id);
            let e = removed[i];
            assert(t.events[i] == e.with_attendee(record));
            if !e.has_attendee(record.user_id) {
                let list = e.attendees.push(record);
                if list.contains(a) {
                    let k = choose|k: int| 0 <= k < list.len() && list[k] == a;
                    assert(k < e.attendees.len());
                    assert(e.attendees[k] == a);
                }
                if e.attendees.contains(a) {
                    let k = choose|k: int| 0 <= k < e.attendees.len() && e.attendees[k] == a;
                    assert(list[k] == a);
                }
            }
        }
    }
}

/// A leave that fails without a `PartialFailure` changes no user, and
/// leaves the user on the attendee list of every event that listed the user
/// before, and on no other.
pub proof fn law_failed_leave_keeps_the_user_listed(s: StoreView, event_id: DocId, user_id: DocId)
    requires
        distinct_ids(s.events),
        leaving(s, event_id, user_id).1 is Err,
        leaving(s, event_id, user_id).1 != Err::<(), Failure>(Failure::PartialFailure),
    ensures
        leaving(s, event_id, user_id).0.users == s.users,
        leaving(s, event_id, user_id).0.events.len() == s.events.len(),
        forall|i: int|
            0 <= i < s.events.len() ==> (#[trigger] leaving(
                s,
                event_id,
                user_id,
            ).0.events[i]).has_attendee(user_id) == s.events[i].has_attendee(user_id),
{
    let t = leaving(s, event_id, user_id).0;
    lemma_find_event(s.events, event_id);
    if find_event(s.events, event_id) is Some {
        let found = find_event(s.events, event_id)->0;
        let at = choose|i: int| 0 <= i < s.events.len() && s.events[i] == found;
        lemma_record_of(found.attendees, user_id);
        assert forall|i: int| 0 <= i < s.events.len() implies (#[trigger] t.events[i]).has_attendee(
            user_id,
        ) == s.events[i].has_attendee(user_id) by {
            lemma_without_attendee(s.events[i], user_id);
            if s.events[i].id == Some(event_id) {
                if i < at {
                    assert(s.events[i].id != s.events[at].id);
                }
                if at < i {
                    assert(s.events[at].id != s.events[i].id);
                }
                assert(s.events[i] == found);
                if record_of(found.attendees, user_id) is Some {
                    lemma_with_attendee(
                        found.without_attendee(user_id),
                        record_of(found.attendees, user_id)->0,
                    );
                }
            }
        }
    }
}

/// A leave undoes a join: when a user who is on neither side joins the
/// event and then leaves it, and both succeed, every event and every user
/// is as before the join.
pub proof fn law_leave_undoes_join(s: StoreView, event_id: DocId, attendee: AttendeeView)
    requires
        off_event(s.events, event_id, attendee.user_id),
        off_user(s.users, attendee.user_id, event_id),
        joining(s, event_id, attendee).1 is Ok,
        leaving(joining(s, event_id, attendee).0, event_id, attendee.user_id).1 is Ok,
    ensures
        leaving(joining(s, event_id, attendee).0, event_id, attendee.user_id).0.events
            == s.events,
        leaving(joining(s, event_id, attendee).0, event_id, attendee.user_id).0.users == s.users,
{
    let user_id = attendee.user_id;
    let t = joining(s, event_id, attendee).0;
    let v = leaving(t, event_id, user_id).0;
    assert forall|i: int| 0 <= i < s.events.len() implies v.events[i] == s.events[i] by {
        if s.events[i].id == Some(event_id) {
            lemma_add_then_remove(s.events[i], attendee);
        }
    }
    assert(v.events =~= s.events);
    assert forall|i: int| 0 <= i < s.users.len() implies v.users[i] == s.users[i] by {
        if s.users[i].id == Some(user_id) {
            let u = s.users[i];
            let keep = other_than(event_id);
            u.attending_events.lemma_filter_push(event_id, keep);
            assert forall|k: int| 0 <= k < u.attending_events.len() implies keep(
                #[trigger] u.attending_events[k],
            ) by {
                assert(u.attending_events.contains(u.attending_events[k]));
            }
            lemma_filter_all(u.attending_events, keep);
        }
    }
    assert(v.users =~= s.users);
}

/// A join touches the membership of no other pair of event and user: for
/// any pair but the one joined, each side lists what it listed.
pub proof fn lemma_join_spares_other_pairs(
    s: StoreView,
    event_id: DocId,
    attendee: AttendeeView,
    e2: DocId,
    u2: DocId,
)
    requires
        e2 != event_id || u2 != attendee.user_id,
    ensures
        on_event(joining(s, event_id, attendee).0.events, e2, u2) == on_event(s.events, e2, u2),
        on_user(joining(s, event_id, attendee).0.users, u2, e2) == on_user(s.users, u2, e2),
        joining(s, event_id, attendee).0.has_event(e2) == s.has_event(e2),
        joining(s, event_id, attendee).0.has_user(u2) == s.has_user(u2),
{
    let t = joining(s, event_id, attendee).0;
    let user_id = attendee.user_id;
    let added = events_with_attendee(s.events, event_id, attendee);
    lemma_same_ids_hold(s.events, t.events, e2);
    lemma_same_user_ids_hold(s.users, t.users, u2);
    assert forall|i: int| 0 <= i < s.events.len() && s.events[i].id == Some(e2) implies (
    #[trigger] t.events[i]).has_attendee(u2) == s.events[i].has_attendee(u2) by {
        if e2 == event_id {
            lemma_with_attendee_spares(s.events[i], attendee, u2);
            lemma_without_attendee_spares(added[i], user_id, u2);
        }
    }
    assert forall|i: int| 0 <= i < s.users.len() && s.users[i].id == Some(u2) implies (
    #[trigger] t.users[i]).attends(e2) == s.users[i].attends(e2) by {
        if u2 == user_id {
            lemma_with_event_spares(s.users[i], event_id, e2);
        }
    }
    assert(on_event(t.events, e2, u2) == on_event(s.events, e2, u2)) by {
        if on_event(s.events, e2, u2) {
            assert forall|i: int|
                0 <= i < t.events.len() && (#[trigger] t.events[i]).id == Some(
                    e2,
                ) implies t.events[i].has_attendee(u2) by {
                assert(s.events[i].id == Some(e2));
            }
        }
        if on_event(t.events, e2, u2) {
            assert forall|i: int|
                0 <= i < s.events.len() && (#[trigger] s.events[i]).id == Some(
                    e2,
                ) implies s.events[i].has_attendee(u2) by {
                assert(t.events[i].id == Some(e2));
            }
        }
    }
    assert(on_user(t.users, u2, e2) == on_user(s.users, u2, e2)) by {
        if on_user(s.users, u2, e2) {
            assert forall|i: int|
                0 <= i < t.users.len() && (#[trigger] t.users[i]).id == Some(
                    u2,
                ) implies t.users[i].attends(e2) by {
                assert(s.users[i].id == Some(u2));
            }
        }
        if on_user(t.users, u2, e2) {
            assert forall|i: int|
                0 <= i < s.users.len() && (#[trigger] s.users[i]).id == Some(
                    u2,
                ) implies s.users[i].attends(e2) by {
                assert(t.users[i].id == Some(u2));
            }
        }
    }
}

/// A leave touches the membership of no other pair of event and user: for
/// any pair but the one left, each side lists what it listed.
pub proof fn lemma_leave_spares_other_pairs(
    s: StoreView,
    event_id: DocId,
    user_id: DocId,
    e2: DocId,
    u2: DocId,
)
    requires
        e2 != event_id || u2 != user_id,
    ensures
        on_event(leaving(s, event_id, user_id).0.events, e2, u2) == on_event(s.events, e2, u2),
        on_user(leaving(s, event_id, user_id).0.users, u2, e2) == on_user(s.users, u2, e2),
        leaving(s, event_id, user_id).0.has_event(e2) == s.has_event(e2),
        leaving(s, event_id, user_id).0.has_user(u2) == s.has_user(u2),
{
    let t = leaving(s, event_id, user_id).0;
    let removed = events_without_attendee(s.events, event_id, user_id);
    lemma_same_ids_hold(s.events, t.events, e2);
    lemma_same_user_ids_hold(s.users, t.users, u2);
    lemma_find_event(s.events, event_id);
    assert forall|i: int| 0 <= i < s.events.len() && s.events[i].id == Some(e2) implies (
    #[trigger] t.events[i]).has_attendee(u2) == s.events[i].has_attendee(u2) by {
        if e2 == event_id {
            lemma_without_attendee_spares(s.events[i], user_id, u2);
            if find_event(s.events, event_id) is Some {
                let found = find_event(s.events, event_id)->0;
                lemma_record_of(found.attendees, user_id);
                if record_of(found.attendees, user_id) is Some {
                    lemma_with_attendee_spares(
                        removed[i],
                        record_of(found.attendees, user_id)->0,
                        u2,
                    );
                }
            }
        }
    }
    assert forall|i: int| 0 <= i < s.users.len() && s.users[i].id == Some(u2) implies (
    #[trigger] t.users[i]).attends(e2) == s.users[i].attends(e2) by {
        if u2 == user_id {
            lemma_without_event(s.users[i], event_id);
        }
    }
    assert(on_event(t.events, e2, u2) == on_event(s.events, e2, u2)) by {
        if on_event(s.events, e2, u2) {
            assert forall|i: int|
                0 <= i < t.events.len() && (#[trigger] t.events[i]).id == Some(
                    e2,
                ) implies t.events[i].has_attendee(u2) by {
                assert(s.events[i].id == Some(e2));
            }
        }
        if on_event(t.events, e2, u2) {
            assert forall|i: int|
                0 <= i < s.events.len() && (#[trigger] s.events[i]).id == Some(
                    e2,
                ) implies s.events[i].has_attendee(u2) by {
                assert(t.events[i].id == Some(e2));
            }
        }
    }
    assert(on_user(t.users, u2, e2) == on_user(s.users, u2, e2)) by {
        if on_user(s.users, u2, e2) {
            assert forall|i: int|
                0 <= i < t.users.len() && (#[trigger] t.users[i]).id == Some(
                    u2,
                ) implies t.users[i].attends(e2) by {
                assert(s.users[i].id == Some(u2));
            }
        }
        if on_user(t.users, u2, e2) {
            assert forall|i: int|
                0 <= i < s.users.len() && (#[trigger] s.users[i]).id == Some(
                    u2,
                ) implies s.users[i].attends(e2) by {
                assert(t.users[i].id == Some(u2));
            }
        }
    }
}

/// Joins and leaves keep the two sides agreeing. If the sides agree on a
/// user and an event before a join or a leave, they agree on them after it,
/// however it ends, with one exception: the pair that was joined or left
/// itself, after a `PartialFailure`.
pub proof fn law_membership_keeps_the_sides_agreeing(
    s: StoreView,
    event_id: DocId,
    attendee: AttendeeView,
    e2: DocId,
    u2: DocId,
)
    requires
        distinct_ids(s.events),
        agree(s, e2, u2),
    ensures
        joining(s, event_id, attendee).1 != Err::<(), Failure>(Failure::PartialFailure) || e2
            != event_id || u2 != attendee.user_id ==> agree(
            joining(s, event_id, attendee).0,
            e2,
            u2,
        ),
        leaving(s, event_id, attendee.user_id).1 != Err::<(), Failure>(Failure::PartialFailure)
            || e2 != event_id || u2 != attendee.user_id ==> agree(
            leaving(s, event_id, attendee.user_id).0,
            e2,
            u2,
        ),
{
    let user_id = attendee.user_id;
    if e2 != event_id || u2 != user_id {
        lemma_join_spares_other_pairs(s, event_id, attendee, e2, u2);
        lemma_leave_spares_other_pairs(s, event_id, user_id, e2, u2);
    } else {
        let (t, joined) = joining(s, event_id, attendee);
        if joined is Ok {
            law_join_links_both_sides(s, event_id, attendee);
            lemma_same_user_ids_hold(s.users, t.users, user_id);
        } else if joined != Err::<(), Failure>(Failure::PartialFailure) {
            law_join_is_all_or_nothing(s, event_id, attendee);
        }
        let (v, left) = leaving(s, event_id, user_id);
        lemma_same_ids_hold(s.events, v.events, event_id);
        lemma_same_user_ids_hold(s.users, v.users, user_id);
        if left is Ok {
            assert(!on_event(v.events, event_id, user_id) || !v.has_event(event_id)) by {
                if v.has_event(event_id) {
                    let i = choose|i: int|
                        0 <= i < v.events.len() && (#[trigger] v.events[i]).id == Some(event_id);
                    lemma_without_attendee(s.events[i], user_id);
                    assert(!v.events[i].has_attendee(user_id));
                }
            }
            assert(!on_user(v.users, user_id, event_id) || !v.has_user(user_id)) by {
                if v.has_user(user_id) {
                    let i = choose|i: int|
                        0 <= i < v.users.len() && (#[trigger] v.users[i]).id == Some(user_id);
                    lemma_without_event(s.users[i], event_id);
                    assert(!v.users[i].attends(event_id));
                }
            }
        } else if left != Err::<(), Failure>(Failure::PartialFailure) {
            law_failed_leave_keeps_the_user_listed(s, event_id, user_id);
            assert(on_event(v.events, event_id, user_id) == on_event(s.events, event_id, user_id))
                by {
                if on_event(s.events, event_id, user_id) {
                    assert forall|i: int|
                        0 <= i < v.events.len() && (#[trigger] v.events[i]).id == Some(
                            event_id,
                        ) implies v.events[i].has_attendee(user_id) by {
                        assert(s.events[i].id == Some(event_id));
                    }
                }
                if on_event(v.events, event_id, user_id) {
                    assert forall|i: int|
                        0 <= i < s.events.len() && (#[trigger] s.events[i]).id == Some(
                            event_id,
                        ) implies s.events[i].has_attendee(user_id) by {
                        assert(v.events[i].id == Some(event_id));
                    }
                }
            }
        }
    }
}

/// A join and a leave leave a valid store valid.
pub proof fn law_membership_keeps_the_store_valid(
    s: StoreView,
    event_id: DocId,
    attendee: AttendeeView,
)
    requires
        s.valid(),
    ensures
        joining(s, event_id, attendee).0.valid(),
        leaving(s, event_id, attendee.user_id).0.valid(),
{
    let user_id = attendee.user_id;
    let added = events_with_attendee(s.events, event_id, attendee);
    let removed = events_without_attendee(s.events, event_id, user_id);
    lemma_same_ids(s.events, added);
    lemma_same_ids(added, events_without_attendee(added, event_id, user_id));
    lemma_same_user_ids(s.users, users_with_event(s.users, user_id, event_id));
    lemma_same_ids(s.events, removed);
    lemma_same_user_ids(s.users, users_without_event(s.users, user_id, event_id));
    lemma_find_event(s.events, event_id);
    if find_event(s.events, event_id) is Some {
        let record = record_of(find_event(s.events, event_id)->0.attendees, user_id);
        if record is Some {
            lemma_same_ids(removed, events_with_attendee(removed, event_id, record->0));
        }
    }
}

/// A join and a leave leave every list a set: where no user had two
/// records on an event and no user named an event twice, none does after.
pub proof fn law_membership_keeps_lists_sets(s: StoreView, event_id: DocId, attendee: AttendeeView)
    requires
        s.set_like(),
    ensures
        joining(s, event_id, attendee).0.set_like(),
        leaving(s, event_id, attendee.user_id).0.set_like(),
{
    let user_id = attendee.user_id;
    let t = joining(s, event_id, attendee).0;
    assert forall|i: int| 0 <= i < t.events.len() implies one_record_each(
        (#[trigger] t.events[i]).attendees,
    ) by {
        lemma_with_attendee_is_a_set(s.events[i], attendee);
        lemma_without_attendee_is_a_set(s.events[i].with_attendee(attendee), user_id);
    }
    assert forall|i: int| 0 <= i < t.users.len() implies named_once(
        (#[trigger] t.users[i]).attending_events,
    ) by {
        lemma_with_event_is_a_set(s.users[i], event_id);
    }
    let v = leaving(s, event_id, user_id).0;
    let removed = events_without_attendee(s.events, event_id, user_id);
    assert forall|i: int| 0 <= i < v.events.len() implies one_record_each(
        (#[trigger] v.events[i]).attendees,
    ) by {
        lemma_without_attendee_is_a_set(s.events[i], user_id);
        if v.events[i] != s.events[i] && v.events[i] != removed[i] {
            let record = record_of(find_event(s.events, event_id)->0.attendees, user_id)->0;
            assert(v.events[i] == removed[i].with_attendee(record));
            lemma_with_attendee_is_a_set(removed[i], record);
        }
    }
    assert forall|i: int| 0 <= i < v.users.len() implies named_once(
        (#[trigger] v.users[i]).attending_events,
    ) by {
        lemma_without_event_is_a_set(s.users[i], event_id);
    }
}

/// Where every list is a set, a user who has joined an event has exactly
/// one record on it, and names it exactly once.
pub proof fn law_joined_user_is_listed_once(s: StoreView, event_id: DocId, attendee: AttendeeView)
    requires
        s.set_like(),
        joining(s, event_id, attendee).1 is Ok,
    ensures
        forall|i: int|
            #![trigger joining(s, event_id, attendee).0.events[i]]
            0 <= i < s.events.len() && s.events[i].id == Some(event_id) ==> joining(
                s,
                event_id,
                attendee,
            ).0.events[i].attendees.filter(of_user(attendee.user_id)).len() == 1,
        forall|i: int|
            #![trigger joining(s, event_id, attendee).0.users[i]]
            0 <= i < s.users.len() && s.users[i].id == Some(attendee.user_id) ==> joining(
                s,
                event_id,
                attendee,
            ).0.users[i].attending_events.filter(same_as(event_id)).len() == 1,
{
    let t = joining(s, event_id, attendee).0;
    law_membership_keeps_lists_sets(s, event_id, attendee);
    assert forall|i: int|
        #![trigger t.events[i]]
        0 <= i < s.events.len() && s.events[i].id == Some(
            event_id,
        ) implies t.events[i].attendees.filter(of_user(attendee.user_id)).len() == 1 by {
        lemma_with_attendee(s.events[i], attendee);
        lemma_one_match(t.events[i].attendees, of_user(attendee.user_id));
    }
    assert forall|i: int|
        #![trigger t.users[i]]
        0 <= i < s.users.len() && s.users[i].id == Some(
            attendee.user_id,
        ) implies t.users[i].attending_events.filter(same_as(event_id)).len() == 1 by {
        lemma_with_event(s.users[i], event_id);
        let list = t.users[i].attending_events;
        let k = choose|k: int| 0 <= k < list.len() && list[k] == event_id;
        assert(same_as(event_id)(list[k]));
        lemma_one_match(list, same_as(event_id));
    }
}

} // verus!
