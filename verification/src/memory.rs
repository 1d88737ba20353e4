use crate::ident::DocId;
use crate::ledger::{listed, pruned, RevocationEntry, RevocationLedger};
use crate::models::{
    attendee_views, not_of, other_than, Attendee, Event, EventUpdate, EventView, User, UserUpdate,
};
use crate::seqs::lemma_count_step;
use crate::store::{
    count_events, count_pinned, count_users, event_found, event_views, event_with, events_unpinned,
    events_with_attendee, events_with_pin, events_with_update, events_without_attendee, find_event,
    find_user, is_pinned, law_calls_keep_lists_sets, law_calls_keep_the_store_valid,
    lemma_find_event, lemma_find_user, lemma_same_ids, lemma_same_user_ids, named_once,
    one_record_each, user_views, user_with, users_with_admin, users_with_event, users_with_update,
    users_without_event, StoreReply, StoreRequest, StoreView,
};
use crate::token::TokenId;
use vstd::prelude::*;

verus! {

/// The test that an event passes when its identifier is one of `ids`.
pub open spec fn among(ids: Seq<DocId>) -> spec_fn(EventView) -> bool {
    |e: EventView| e.id is Some && ids.contains(e.id->0)
}

/// The events of the list whose identifier is among `ids`, in the list's order.
pub open spec fn events_among(events: Seq<EventView>, ids: Seq<DocId>) -> Seq<EventView> {
    events.filter(among(ids))
}

/// A store held in memory. It answers each call as a document store with
/// single-document atomic updates does, and fails the calls that its fault
/// script marks.
#[derive(Debug)]
pub struct MemoryStore {
    events: Vec<Event>,
    users: Vec<User>,
    revoked: RevocationLedger,
    faults: Vec<bool>,
    cursor: usize,
    transactional: bool,
    snapshot: Option<(Vec<Event>, Vec<User>)>,
}

impl View for MemoryStore {
    type V = StoreView;

    closed spec fn view(&self) -> StoreView {
        StoreView {
            events: event_views(self.events@),
            users: user_views(self.users@),
            revoked: self.revoked@,
            faults: if self.cursor <= self.faults.len() {
                self.faults@.skip(self.cursor as int)
            } else {
                Seq::empty()
            },
            transactional: self.transactional,
            snapshot: match self.snapshot {
                Some((events, users)) => Some((event_views(events@), user_views(users@))),
                None => None,
            },
        }
    }
}

fn clone_events(list: &Vec<Event>) -> (r: Vec<Event>)
    ensures
        event_views(r@) == event_views(list@),
{
    let mut out: Vec<Event> = Vec::new();
    let mut i: usize = 0;
    while i < list.len()
        invariant
            i <= list.len(),
            out.len() == i,
            forall|k: int| 0 <= k < i ==> (#[trigger] out[k])@ == list[k]@,
        decreases list.len() - i,
    {
        out.push(list[i].clone());
        i += 1;
    }
    assert(event_views(out@) =~= event_views(list@));
    out
}

fn clone_users(list: &Vec<User>) -> (r: Vec<User>)
    ensures
        user_views(r@) == user_views(list@),
{
    let mut out: Vec<User> = Vec::new();
    let mut i: usize = 0;
    while i < list.len()
        invariant
            i <= list.len(),
            out.len() == i,
            forall|k: int| 0 <= k < i ==> (#[trigger] out[k])@ == list[k]@,
        decreases list.len() - i,
    {
        out.push(list[i].clone());
        i += 1;
    }
    assert(user_views(out@) =~= user_views(list@));
    out
}

fn lookup_event(events: &Vec<Event>, event_id: &DocId) -> (r: Option<usize>)
    ensures
        match r {
            Some(i) => i < events.len() && find_event(event_views(events@), *event_id) == Some(
                events[i as int]@,
            ),
            None => find_event(event_views(events@), *event_id) is None,
        },
{
    let ghost all = event_views(events@);
    let mut i: usize = 0;
    assert(all.skip(0) =~= all);
    while i < events.len()
        invariant
            i <= events.len(),
            all == event_views(events@),
            find_event(all, *event_id) == find_event(all.skip(i as int), *event_id),
        decreases events.len() - i,
    {
        assert(all.skip(i as int).drop_first() =~= all.skip(i + 1));
        if events[i].id == Some(*event_id) {
            return Some(i);
        }
        i += 1;
    }
    None
}

fn lookup_user(users: &Vec<User>, user_id: &DocId) -> (r: Option<usize>)
    ensures
        match r {
            Some(i) => i < users.len() && find_user(user_views(users@), *user_id) == Some(
                users[i as int]@,
            ),
            None => find_user(user_views(users@), *user_id) is None,
        },
{
    let ghost all = user_views(users@);
    let mut i: usize = 0;
    assert(all.skip(0) =~= all);
    while i < users.len()
        invariant
            i <= users.len(),
            all == user_views(users@),
            find_user(all, *user_id) == find_user(all.skip(i as int), *user_id),
        decreases users.len() - i,
    {
        assert(all.skip(i as int).drop_first() =~= all.skip(i + 1));
        if users[i].id == Some(*user_id) {
            return Some(i);
        }
        i += 1;
    }
    None
}

fn lists_user(list: &Vec<Attendee>, user_id: &DocId) -> (b: bool)
    ensures
        b == exists|k: int| 0 <= k < list.len() && (#[trigger] list[k]).user_id == *user_id,
{
    let mut i: usize = 0;
    while i < list.len()
        invariant
            i <= list.len(),
            forall|k: int| 0 <= k < i ==> (#[trigger] list[k]).user_id != *user_id,
        decreases list.len() - i,
    {
        if list[i].user_id == *user_id {
            return true;
        }
        i += 1;
    }
    false
}

fn without_user(list: &Vec<Attendee>, user_id: &DocId) -> (r: Vec<Attendee>)
    ensures
        attendee_views(r@) == attendee_views(list@).filter(not_of(*user_id)),
{
    let ghost all = attendee_views(list@);
    let ghost keep = not_of(*user_id);
    let mut out: Vec<Attendee> = Vec::new();
    let mut i: usize = 0;
    while i < list.len()
        invariant
            i <= list.len(),
            all == attendee_views(list@),
            keep == not_of(*user_id),
            attendee_views(out@) == all.take(i as int).filter(keep),
        decreases list.len() - i,
    {
        proof {
            assert(all.take(i + 1) =~= all.take(i as int).push(all[i as int]));
            all.take(i as int).lemma_filter_push(all[i as int], keep);
        }
        if list[i].user_id != *user_id {
            let ghost before = attendee_views(out@);
            out.push(list[i].clone());
            assert(attendee_views(out@) =~= before.push(all[i as int]));
        }
        i += 1;
    }
    assert(all.take(list.len() as int) =~= all);
    out
}

fn without_event(list: &Vec<DocId>, event_id: &DocId) -> (r: Vec<DocId>)
    ensures
        r@ == list@.filter(other_than(*event_id)),
{
    let ghost keep = other_than(*event_id);
    let mut out: Vec<DocId> = Vec::new();
    let mut i: usize = 0;
    while i < list.len()
        invariant
            i <= list.len(),
            keep == other_than(*event_id),
            out@ == list@.take(i as int).filter(keep),
        decreases list.len() - i,
    {
        proof {
            assert(list@.take(i + 1) =~= list@.take(i as int).push(list[i as int]));
            list@.take(i as int).lemma_filter_push(list[i as int], keep);
        }
        if list[i] != *event_id {
            out.push(list[i]);
        }
        i += 1;
    }
    assert(list@.take(list.len() as int) =~= list@);
    out
}

fn lists_event(list: &Vec<DocId>, event_id: &DocId) -> (b: bool)
    ensures
        b == list@.contains(*event_id),
{
    let mut i: usize = 0;
    while i < list.len()
        invariant
            i <= list.len(),
            forall|k: int| 0 <= k < i ==> list[k] != *event_id,
        decreases list.len() - i,
    {
        if list[i] == *event_id {
            return true;
        }
        i += 1;
    }
    false
}

fn add_attendee(events: &mut Vec<Event>, event_id: &DocId, attendee: &Attendee) -> (matched: u64)
    ensures
        event_views(final(events)@) == events_with_attendee(
            event_views(old(events)@),
            *event_id,
            attendee@,
        ),
        matched == count_events(event_views(old(events)@), *event_id),
{
    let ghost before = event_views(events@);
    let mut matched: u64 = 0;
    let mut i: usize = 0;
    while i < events.len()
        invariant
            i <= events.len(),
            events.len() == before.len(),
            forall|k: int|
                0 <= k < i ==> (#[trigger] events[k])@ == if before[k].id == Some(*event_id) {
                    before[k].with_attendee(attendee@)
                } else {
                    before[k]
                },
            forall|k: int| i <= k < events.len() ==> (#[trigger] events[k])@ == before[k],
            matched == count_events(before.take(i as int), *event_id),
            matched <= i,
        decreases events.len() - i,
    {
        proof {
            lemma_count_step(before, event_with(*event_id), i as int);
        }
        if events[i].id == Some(*event_id) {
            matched += 1;
            if !lists_user(&events[i].attendees, &attendee.user_id) {
                let ghost list = attendee_views(events[i as int].attendees@);
                assert(!before[i as int].has_attendee(attendee.user_id)) by {
                    assert(before[i as int].attendees == list);
                    assert forall|k: int| 0 <= k < list.len() implies (#[trigger] list[k]).user_id
                        != attendee.user_id by {
                        assert(events[i as int].attendees[k].user_id != attendee.user_id);
                    }
                }
                events[i].attendees.push(attendee.clone());
                assert(attendee_views(events[i as int].attendees@) =~= list.push(attendee@));
            } else {
                let ghost list = attendee_views(events[i as int].attendees@);
                assert(before[i as int].has_attendee(attendee.user_id)) by {
                    let k = choose|k: int|
                        0 <= k < events[i as int].attendees.len() && (
                        #[trigger] events[i as int].attendees[k]).user_id == attendee.user_id;
                    assert(list[k].user_id == attendee.user_id);
                }
            }
        }
        i += 1;
    }
    assert(before.take(events.len() as int) =~= before);
    assert(event_views(events@) =~= events_with_attendee(before, *event_id, attendee@));
    matched
}

fn remove_attendee(events: &mut Vec<Event>, event_id: &DocId, user_id: &DocId) -> (matched: u64)
    ensures
        event_views(final(events)@) == events_without_attendee(
            event_views(old(events)@),
            *event_id,
            *user_id,
        ),
        matched == count_events(event_views(old(events)@), *event_id),
{
    let ghost before = event_views(events@);
    let mut matched: u64 = 0;
    let mut i: usize = 0;
    while i < events.len()
        invariant
            i <= events.len(),
            events.len() == before.len(),
            forall|k: int|
                0 <= k < i ==> (#[trigger] events[k])@ == if before[k].id == Some(*event_id) {
                    before[k].without_attendee(*user_id)
                } else {
                    before[k]
                },
            forall|k: int| i <= k < events.len() ==> (#[trigger] events[k])@ == before[k],
            matched == count_events(before.take(i as int), *event_id),
            matched <= i,
        decreases events.len() - i,
    {
        proof {
            lemma_count_step(before, event_with(*event_id), i as int);
        }
        if events[i].id == Some(*event_id) {
            matched += 1;
            let kept = without_user(&events[i].attendees, user_id);
            events[i].attendees = kept;
        }
        i += 1;
    }
    assert(before.take(events.len() as int) =~= before);
    assert(event_views(events@) =~= events_without_attendee(before, *event_id, *user_id));
    matched
}

fn set_pin(events: &mut Vec<Event>, event_id: &DocId, pinned: bool) -> (matched: u64)
    ensures
        event_views(final(events)@) == events_with_pin(event_views(old(events)@), *event_id, pinned),
        matched == count_events(event_views(old(events)@), *event_id),
{
    let ghost before = event_views(events@);
    let mut matched: u64 = 0;
    let mut i: usize = 0;
    while i < events.len()
        invariant
            i <= events.len(),
            events.len() == before.len(),
            forall|k: int|
                0 <= k < i ==> (#[trigger] events[k])@ == if before[k].id == Some(*event_id) {
                    before[k].with_pinned(pinned)
                } else {
                    before[k]
                },
            forall|k: int| i <= k < events.len() ==> (#[trigger] events[k])@ == before[k],
            matched == count_events(before.take(i as int), *event_id),
            matched <= i,
        decreases events.len() - i,
    {
        proof {
            lemma_count_step(before, event_with(*event_id), i as int);
        }
        if events[i].id == Some(*event_id) {
            matched += 1;
            events[i].pinned = pinned;
        }
        i += 1;
    }
    assert(before.take(events.len() as int) =~= before);
    assert(event_views(events@) =~= events_with_pin(before, *event_id, pinned));
    matched
}

fn unset_pins(events: &mut Vec<Event>) -> (matched: u64)
    ensures
        event_views(final(events)@) == events_unpinned(event_views(old(events)@)),
        matched == count_pinned(event_views(old(events)@)),
{
    let ghost before = event_views(events@);
    let mut matched: u64 = 0;
    let mut i: usize = 0;
    while i < events.len()
        invariant
            i <= events.len(),
            events.len() == before.len(),
            forall|k: int| 0 <= k < i ==> (#[trigger] events[k])@ == before[k].with_pinned(false),
            forall|k: int| i <= k < events.len() ==> (#[trigger] events[k])@ == before[k],
            matched == count_pinned(before.take(i as int)),
            matched <= i,
        decreases events.len() - i,
    {
        proof {
            lemma_count_step(before, is_pinned(), i as int);
        }
        if events[i].pinned {
            matched += 1;
            events[i].pinned = false;
        }
        i += 1;
    }
    assert(before.take(events.len() as int) =~= before);
    assert(event_views(events@) =~= events_unpinned(before));
    matched
}

fn add_membership(users: &mut Vec<User>, user_id: &DocId, event_id: &DocId) -> (matched: u64)
    ensures
        user_views(final(users)@) == users_with_event(user_views(old(users)@), *user_id, *event_id),
        matched == count_users(user_views(old(users)@), *user_id),
{
    let ghost before = user_views(users@);
    let mut matched: u64 = 0;
    let mut i: usize = 0;
    while i < users.len()
        invariant
            i <= users.len(),
            users.len() == before.len(),
            forall|k: int|
                0 <= k < i ==> (#[trigger] users[k])@ == if before[k].id == Some(*user_id) {
                    before[k].with_event(*event_id)
                } else {
                    before[k]
                },
            forall|k: int| i <= k < users.len() ==> (#[trigger] users[k])@ == before[k],
            matched == count_users(before.take(i as int), *user_id),
            matched <= i,
        decreases users.len() - i,
    {
        proof {
            lemma_count_step(before, user_with(*user_id), i as int);
        }
        if users[i].id == Some(*user_id) {
            matched += 1;
            if !lists_event(&users[i].attending_events, event_id) {
                users[i].attending_events.push(*event_id);
            }
        }
        i += 1;
    }
    assert(before.take(users.len() as int) =~= before);
    assert(user_views(users@) =~= users_with_event(before, *user_id, *event_id));
    matched
}

fn remove_membership(users: &mut Vec<User>, user_id: &DocId, event_id: &DocId) -> (matched: u64)
    ensures
        user_views(final(users)@) == users_without_event(
            user_views(old(users)@),
            *user_id,
            *event_id,
        ),
        matched == count_users(user_views(old(users)@), *user_id),
{
    let ghost before = user_views(users@);
    let mut matched: u64 = 0;
    let mut i: usize = 0;
    while i < users.len()
        invariant
            i <= users.len(),
            users.len() == before.len(),
            forall|k: int|
                0 <= k < i ==> (#[trigger] users[k])@ == if before[k].id == Some(*user_id) {
                    before[k].without_event(*event_id)
                } else {
                    before[k]
                },
            forall|k: int| i <= k < users.len() ==> (#[trigger] users[k])@ == before[k],
            matched == count_users(before.take(i as int), *user_id),
            matched <= i,
        decreases users.len() - i,
    {
        proof {
            lemma_count_step(before, user_with(*user_id), i as int);
        }
        if users[i].id == Some(*user_id) {
            matched += 1;
            let kept = without_event(&users[i].attending_events, event_id);
            users[i].attending_events = kept;
        }
        i += 1;
    }
    assert(before.take(users.len() as int) =~= before);
    assert(user_views(users@) =~= users_without_event(before, *user_id, *event_id));
    matched
}

impl MemoryStore {
    /// An empty store that suffers no fault. `transactional` says whether it
    /// can open transactions.
    pub fn new(transactional: bool) -> (store: MemoryStore)
        ensures
            store@ == (StoreView {
                events: Seq::empty(),
                users: Seq::empty(),
                revoked: Seq::empty(),
                faults: Seq::empty(),
                transactional,
                snapshot: None,
            }),
            store@.valid(),
            store@.set_like(),
    {
        let store = MemoryStore {
            events: Vec::new(),
            users: Vec::new(),
            revoked: RevocationLedger::new(),
            faults: Vec::new(),
            cursor: 0,
            transactional,
            snapshot: None,
        };
        assert(store@.events =~= Seq::empty());
        assert(store@.users =~= Seq::empty());
        assert(store@.faults =~= Seq::empty());
        store
    }

    /// Replaces the fault script: the `k`-th call from now fails if and only
    /// if `script[k]` is there and `true`.
    pub fn script_faults(&mut self, script: Vec<bool>)
        ensures
            final(self)@ == (StoreView { faults: script@, ..old(self)@ }),
    {
        self.faults = script;
        self.cursor = 0;
        assert(self.faults@.skip(0) =~= self.faults@);
    }

    /// Takes an event in, unless it has no identifier or the identifier is
    /// taken. Says whether it did.
    pub fn insert_event(&mut self, event: Event) -> (inserted: bool)
        ensures
            inserted == (event.id is Some && !old(self)@.has_event(event.id->0)),
            final(self)@ == if inserted {
                StoreView { events: old(self)@.events.push(event@), ..old(self)@ }
            } else {
                old(self)@
            },
            old(self)@.valid() ==> final(self)@.valid(),
            old(self)@.set_like() && one_record_each(event@.attendees) ==> final(self)@.set_like(),
    {
        match event.id {
            Some(id) => {
                proof {
                    lemma_find_event(event_views(self.events@), id);
                }
                if lookup_event(&self.events, &id).is_some() {
                    return false;
                }
                let ghost before = event_views(self.events@);
                self.events.push(event);
                assert(event_views(self.events@) =~= before.push(event@));
                true
            },
            None => false,
        }
    }

    /// Takes a user in, unless it has no identifier or the identifier is
    /// taken. Says whether it did.
    pub fn insert_user(&mut self, user: User) -> (inserted: bool)
        ensures
            inserted == (user.id is Some && !old(self)@.has_user(user.id->0)),
            final(self)@ == if inserted {
                StoreView { users: old(self)@.users.push(user@), ..old(self)@ }
            } else {
                old(self)@
            },
            old(self)@.valid() ==> final(self)@.valid(),
            old(self)@.set_like() && named_once(user@.attending_events) ==> final(self)@.set_like(),
    {
        match user.id {
            Some(id) => {
                proof {
                    lemma_find_user(user_views(self.users@), id);
                }
                if lookup_user(&self.users, &id).is_some() {
                    return false;
                }
                let ghost before = user_views(self.users@);
                self.users.push(user);
                assert(user_views(self.users@) =~= before.push(user@));
                true
            },
            None => false,
        }
    }

    /// Writes a token into the revocation ledger.
    pub fn revoke(&mut self, token_id: TokenId, expires_at: u64)
        ensures
            final(self)@ == (StoreView {
                revoked: if listed(old(self)@.revoked, token_id) {
                    old(self)@.revoked
                } else {
                    old(self)@.revoked.push(RevocationEntry { token_id, expires_at })
                },
                ..old(self)@
            }),
    {
        self.revoked.revoke(token_id, expires_at);
    }

    /// Drops the ledger entries whose expiry has passed at `now`.
    pub fn prune_revocations(&mut self, now: u64)
        ensures
            final(self)@ == (StoreView { revoked: pruned(old(self)@.revoked, now), ..old(self)@ }),
    {
        self.revoked.prune(now);
    }

    /// A copy of the first event with the identifier.
    pub fn event(&self, event_id: &DocId) -> (r: Option<Event>)
        ensures
            match r {
                Some(e) => find_event(self@.events, *event_id) == Some(e@),
                None => find_event(self@.events, *event_id) is None,
            },
    {
        match lookup_event(&self.events, event_id) {
            Some(i) => Some(self.events[i].clone()),
            None => None,
        }
    }

    /// A copy of the first user with the identifier.
    pub fn user(&self, user_id: &DocId) -> (r: Option<User>)
        ensures
            match r {
                Some(u) => find_user(self@.users, *user_id) == Some(u@),
                None => find_user(self@.users, *user_id) is None,
            },
    {
        match lookup_user(&self.users, user_id) {
            Some(i) => Some(self.users[i].clone()),
            None => None,
        }
    }

    /// How many events are pinned.
    pub fn pinned_count(&self) -> (n: usize)
        ensures
            n == count_pinned(self@.events),
    {
        let ghost all = event_views(self.events@);
        let mut n: usize = 0;
        let mut i: usize = 0;
        while i < self.events.len()
            invariant
                i <= self.events.len(),
                all == event_views(self.events@),
                n == count_pinned(all.take(i as int)),
                n <= i,
            decreases self.events.len() - i,
        {
            proof {
                lemma_count_step(all, is_pinned(), i as int);
            }
            if self.events[i].pinned {
                n += 1;
            }
            i += 1;
        }
        assert(all.take(self.events.len() as int) =~= all);
        n
    }

    fn take_fault(&mut self) -> (fault: bool)
        ensures
            fault == old(self)@.faulted(),
            final(self)@ == old(self)@.spent(1),
    {
        if self.cursor < self.faults.len() {
            let fault = self.faults[self.cursor];
            self.cursor += 1;
            assert(self.faults@.skip(self.cursor as int) =~= self.faults@.skip(
                self.cursor - 1,
            ).skip(1));
            fault
        } else {
            assert(self@.faults =~= old(self)@.spent(1).faults);
            false
        }
    }

    fn roll_back(&mut self)
        ensures
            final(self)@ == old(self)@.rolled_back(),
    {
        match self.snapshot.take() {
            Some((events, users)) => {
                self.events = events;
                self.users = users;
            },
            None => {},
        }
    }

    /// Writes an update to the users with the identifier. `None` when the
    /// call fails, which changes no document; else whether there was such a
    /// user.
    pub fn update_user(&mut self, user_id: &DocId, update: &UserUpdate) -> (r: Option<bool>)
        ensures
            r == if old(self)@.faulted() {
                None
            } else {
                Some(old(self)@.has_user(*user_id))
            },
            final(self)@ == if old(self)@.faulted() {
                old(self)@.spent(1)
            } else {
                StoreView {
                    users: users_with_update(old(self)@.users, *user_id, update@),
                    ..old(self)@.spent(1)
                }
            },
            old(self)@.valid() ==> final(self)@.valid(),
            old(self)@.set_like() ==> final(self)@.set_like(),
    {
        if self.take_fault() {
            return None;
        }
        let ghost before = user_views(self.users@);
        let mut found = false;
        let mut i: usize = 0;
        while i < self.users.len()
            invariant
                i <= self.users.len(),
                self.users.len() == before.len(),
                self@ == (StoreView { users: user_views(self.users@), ..old(self)@.spent(1) }),
                forall|k: int|
                    0 <= k < i ==> (#[trigger] self.users[k])@ == if before[k].id == Some(
                        *user_id,
                    ) {
                        before[k].with_update(update@)
                    } else {
                        before[k]
                    },
                forall|k: int| i <= k < self.users.len() ==> (#[trigger] self.users[k])@ == before[k],
                found == exists|k: int| 0 <= k < i && (#[trigger] before[k]).id == Some(*user_id),
            decreases self.users.len() - i,
        {
            if self.users[i].id == Some(*user_id) {
                found = true;
                self.users[i].name = update.name.clone();
                self.users[i].email = update.email.clone();
                self.users[i].wallet = update.wallet.clone();
                self.users[i].updated_at = update.updated_at;
            }
            i += 1;
        }
        proof {
            let after = users_with_update(before, *user_id, update@);
            assert(user_views(self.users@) =~= after);
            if old(self)@.valid() {
                lemma_same_user_ids(before, after);
            }
            assert forall|k: int| 0 <= k < after.len() implies (#[trigger] after[k]).attending_events
                == before[k].attending_events by {}
        }
        Some(found)
    }

    /// Sets the administrator's mark of the users with the identifier.
    /// `None` when the call fails, which changes no document; else whether
    /// there was such a user.
    pub fn update_user_rank(&mut self, user_id: &DocId, admin: bool) -> (r: Option<bool>)
        ensures
            r == if old(self)@.faulted() {
                None
            } else {
                Some(old(self)@.has_user(*user_id))
            },
            final(self)@ == if old(self)@.faulted() {
                old(self)@.spent(1)
            } else {
                StoreView {
                    users: users_with_admin(old(self)@.users, *user_id, admin),
                    ..old(self)@.spent(1)
                }
            },
            old(self)@.valid() ==> final(self)@.valid(),
            old(self)@.set_like() ==> final(self)@.set_like(),
    {
        if self.take_fault() {
            return None;
        }
        let ghost before = user_views(self.users@);
        let mut found = false;
        let mut i: usize = 0;
        while i < self.users.len()
            invariant
                i <= self.users.len(),
                self.users.len() == before.len(),
                self@ == (StoreView { users: user_views(self.users@), ..old(self)@.spent(1) }),
                forall|k: int|
                    0 <= k < i ==> (#[trigger] self.users[k])@ == if before[k].id == Some(
                        *user_id,
                    ) {
                        before[k].with_admin(admin)
                    } else {
                        before[k]
                    },
                forall|k: int| i <= k < self.users.len() ==> (#[trigger] self.users[k])@ == before[k],
                found == exists|k: int| 0 <= k < i && (#[trigger] before[k]).id == Some(*user_id),
            decreases self.users.len() - i,
        {
            if self.users[i].id == Some(*user_id) {
                found = true;
                self.users[i].admin = Some(admin);
            }
            i += 1;
        }
        proof {
            let after = users_with_admin(before, *user_id, admin);
            assert(user_views(self.users@) =~= after);
            if old(self)@.valid() {
                lemma_same_user_ids(before, after);
            }
            assert forall|k: int| 0 <= k < after.len() implies (#[trigger] after[k]).attending_events
                == before[k].attending_events by {}
        }
        Some(found)
    }

    /// Writes an update to the events with the identifier. `None` when the
    /// call fails, which changes no document; else whether there was such an
    /// event.
    pub fn update_event(&mut self, event_id: &DocId, update: &EventUpdate) -> (r: Option<bool>)
        ensures
            r == if old(self)@.faulted() {
                None
            } else {
                Some(old(self)@.has_event(*event_id))
            },
            final(self)@ == if old(self)@.faulted() {
                old(self)@.spent(1)
            } else {
                StoreView {
                    events: events_with_update(old(self)@.events, *event_id, update@),
                    ..old(self)@.spent(1)
                }
            },
            old(self)@.valid() ==> final(self)@.valid(),
            old(self)@.set_like() ==> final(self)@.set_like(),
    {
        if self.take_fault() {
            return None;
        }
        let ghost before = event_views(self.events@);
        let mut found = false;
        let mut i: usize = 0;
        while i < self.events.len()
            invariant
                i <= self.events.len(),
                self.events.len() == before.len(),
                self@ == (StoreView { events: event_views(self.events@), ..old(self)@.spent(1) }),
                forall|k: int|
                    0 <= k < i ==> (#[trigger] self.events[k])@ == if before[k].id == Some(
                        *event_id,
                    ) {
                        before[k].with_update(update@)
                    } else {
                        before[k]
                    },
                forall|k: int|
                    i <= k < self.events.len() ==> (#[trigger] self.events[k])@ == before[k],
                found == exists|k: int| 0 <= k < i && (#[trigger] before[k]).id == Some(*event_id),
            decreases self.events.len() - i,
        {
            if self.events[i].id == Some(*event_id) {
                found = true;
                self.events[i].name = update.name.clone();
                self.events[i].location = update.location.clone();
            }
            i += 1;
        }
        proof {
            let after = events_with_update(before, *event_id, update@);
            assert(event_views(self.events@) =~= after);
            if old(self)@.valid() {
                lemma_same_ids(before, after);
            }
            assert forall|k: int| 0 <= k < after.len() implies (#[trigger] after[k]).attendees
                == before[k].attendees by {}
        }
        Some(found)
    }

    /// Reads the events whose identifier is among `ids`, in the store's
    /// order. `None` when the call fails.
    pub fn find_events(&mut self, ids: &Vec<DocId>) -> (r: Option<Vec<Event>>)
        ensures
            final(self)@ == old(self)@.spent(1),
            old(self)@.valid() ==> final(self)@.valid(),
            old(self)@.set_like() ==> final(self)@.set_like(),
            r is None <==> old(self)@.faulted(),
            r matches Some(found) ==> event_views(found@) == events_among(old(self)@.events, ids@),
    {
        if self.take_fault() {
            return None;
        }
        let ghost all = event_views(self.events@);
        let mut found: Vec<Event> = Vec::new();
        let mut i: usize = 0;
        while i < self.events.len()
            invariant
                i <= self.events.len(),
                all == event_views(self.events@),
                event_views(found@) == events_among(all.take(i as int), ids@),
            decreases self.events.len() - i,
        {
            proof {
                assert(all.take(i + 1) =~= all.take(i as int).push(all[i as int]));
                all.take(i as int).lemma_filter_push(all[i as int], among(ids@));
            }
            let wanted = match self.events[i].id {
                Some(id) => lists_event(ids, &id),
                None => false,
            };
            if wanted {
                let ghost before = event_views(found@);
                found.push(self.events[i].clone());
                assert(event_views(found@) =~= before.push(all[i as int]));
            }
            i += 1;
        }
        assert(all.take(self.events.len() as int) =~= all);
        Some(found)
    }

    /// Performs one call, or fails it if the fault script says so.
    pub fn execute(&mut self, request: StoreRequest) -> (reply: StoreReply)
        ensures
            reply@ == old(self)@.reply(request@),
            final(self)@ == old(self)@.after(request@),
            old(self)@.valid() ==> final(self)@.valid(),
            old(self)@.set_like() ==> final(self)@.set_like(),
    {
        proof {
            if self@.valid() {
                law_calls_keep_the_store_valid(self@, request@);
            }
            if self@.set_like() {
                law_calls_keep_lists_sets(self@, request@);
            }
        }
        if self.take_fault() {
            match request {
                StoreRequest::CommitTransaction => self.roll_back(),
                StoreRequest::AbortTransaction => self.roll_back(),
                _ => {},
            }
            return StoreReply::Failed;
        }
        match request {
            StoreRequest::FindEvent { event_id, user_id } => {
                match lookup_event(&self.events, &event_id) {
                    Some(i) => event_found(&self.events[i], &user_id),
                    None => StoreReply::Absent,
                }
            },
            StoreRequest::FindUser { user_id } => {
                proof {
                    lemma_find_user(user_views(self.users@), user_id);
                }
                if lookup_user(&self.users, &user_id).is_some() {
                    StoreReply::Present(None)
                } else {
                    StoreReply::Absent
                }
            },
            StoreRequest::FindRevocation { token_id } => {
                if self.revoked.is_revoked(&token_id) {
                    StoreReply::Present(None)
                } else {
                    StoreReply::Absent
                }
            },
            StoreRequest::AddAttendee { event_id, attendee } => StoreReply::Matched(
                add_attendee(&mut self.events, &event_id, &attendee),
            ),
            StoreRequest::RemoveAttendee { event_id, user_id } => StoreReply::Matched(
                remove_attendee(&mut self.events, &event_id, &user_id),
            ),
            StoreRequest::AddMembership { user_id, event_id } => StoreReply::Matched(
                add_membership(&mut self.users, &user_id, &event_id),
            ),
            StoreRequest::RemoveMembership { user_id, event_id } => StoreReply::Matched(
                remove_membership(&mut self.users, &user_id, &event_id),
            ),
            StoreRequest::UnsetAllPinned => StoreReply::Matched(unset_pins(&mut self.events)),
            StoreRequest::SetPinned { event_id, pinned } => StoreReply::Matched(
                set_pin(&mut self.events, &event_id, pinned),
            ),
            StoreRequest::BeginTransaction => {
                if self.transactional && self.snapshot.is_none() {
                    self.snapshot = Some((clone_events(&self.events), clone_users(&self.users)));
                    StoreReply::Done
                } else {
                    StoreReply::Failed
                }
            },
            StoreRequest::CommitTransaction => {
                if self.snapshot.is_some() {
                    self.snapshot = None;
                    StoreReply::Done
                } else {
                    StoreReply::Failed
                }
            },
            StoreRequest::AbortTransaction => {
                self.roll_back();
                StoreReply::Done
            },
        }
    }
}

} // verus!
