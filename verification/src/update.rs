use crate::auth::{AuthContext, Grant};
use crate::failure::StatusCategory;
use crate::ident::{id_bytes, id_from, is_id_text, lemma_id_from};
use crate::memory::MemoryStore;
use crate::models::{Event, EventUpdateView, EventView, User, UserUpdateView, UserView};
use crate::respond::{
    event_update, permits, target, update_event, update_user, update_user_rank, user_update, Route,
    StoreFault,
};
use crate::store::{events_with_update, users_with_admin, users_with_update, StoreView};
use crate::token::Privilege;
use vstd::prelude::*;

verus! {

/// What an update of a user writes, of what the request carries.
pub open spec fn user_writes(updated: UserView, now: u64) -> UserUpdateView {
    UserUpdateView {
        name: updated.name,
        email: updated.email,
        wallet: updated.wallet,
        updated_at: now,
        user_rank: updated.admin,
    }
}

/// What an update of an event writes, of what the request carries.
pub open spec fn event_writes(updated: EventView) -> EventUpdateView {
    EventUpdateView { name: updated.name, location: updated.location }
}

/// What an admitted caller's request to update a user comes to: the store
/// afterwards, and the answer.
///
/// A malformed identifier is bad input and makes no call. A call that fails
/// is a server error and changes nothing. Where no user has the identifier
/// the answer is `NotFound`; else the user's name, address, wallet and time
/// of update are written, and the answer is in words.
pub open spec fn user_updating(s: StoreView, id: Seq<char>, updated: UserView, now: u64) -> (
    StoreView,
    Result<Seq<char>, StatusCategory>,
) {
    let user_id = id_from(id_bytes(id));
    if !is_id_text(id) {
        (s, Err(StatusCategory::BadInput))
    } else if s.faulted() {
        (s.spent(1), Err(StatusCategory::TransientServerError))
    } else if !s.has_user(user_id) {
        (s.spent(1), Err(StatusCategory::NotFound))
    } else {
        (
            StoreView {
                users: users_with_update(s.users, user_id, user_writes(updated, now)),
                ..s.spent(1)
            },
            Ok("User succesfully updated"@),
        )
    }
}

/// What an admitted caller's request to set a user's rank comes to: as an
/// update of a user, but what is written is the administrator's mark alone.
pub open spec fn rank_updating(s: StoreView, id: Seq<char>, admin: bool) -> (
    StoreView,
    Result<Seq<char>, StatusCategory>,
) {
    let user_id = id_from(id_bytes(id));
    if !is_id_text(id) {
        (s, Err(StatusCategory::BadInput))
    } else if s.faulted() {
        (s.spent(1), Err(StatusCategory::TransientServerError))
    } else if !s.has_user(user_id) {
        (s.spent(1), Err(StatusCategory::NotFound))
    } else {
        (
            StoreView { users: users_with_admin(s.users, user_id, admin), ..s.spent(1) },
            Ok("User rank successfully updated"@),
        )
    }
}

/// What a request to update an event comes to: the store afterwards, and
/// the answer.
///
/// Anyone but an administrator is forbidden, and a malformed identifier is
/// bad input; neither makes a call. A call that fails is a server error and
/// changes nothing. Where no event has the identifier the answer is
/// `NotFound`; else the event's name and place are written, and the answer
/// is in words.
pub open spec fn event_updating(s: StoreView, grant: Grant, id: Seq<char>, updated: EventView) -> (
    StoreView,
    Result<Seq<char>, StatusCategory>,
) {
    let event_id = id_from(id_bytes(id));
    if grant.privilege != Privilege::Admin {
        (s, Err(StatusCategory::Forbidden))
    } else if !is_id_text(id) {
        (s, Err(StatusCategory::BadInput))
    } else if s.faulted() {
        (s.spent(1), Err(StatusCategory::TransientServerError))
    } else if !s.has_event(event_id) {
        (s.spent(1), Err(StatusCategory::NotFound))
    } else {
        (
            StoreView {
                events: events_with_update(s.events, event_id, event_writes(updated)),
                ..s.spent(1)
            },
            Ok("User successfully  updated"@),
        )
    }
}

/// The text of an answer in words.
pub open spec fn answer_text(r: Result<String, StatusCategory>) -> Result<Seq<char>, StatusCategory> {
    match r {
        Ok(words) => Ok(words@),
        Err(e) => Err(e),
    }
}

/// Updates the user that the identifier names with what the request
/// carries, for an admitted caller.
pub fn update_stored_user(
    store: &mut MemoryStore,
    context: &AuthContext,
    id: &str,
    updated_user: &User,
    now: u64,
) -> (r: Result<String, StatusCategory>)
    ensures
        (final(store)@, answer_text(r)) == user_updating(old(store)@, id@, updated_user@, now),
        old(store)@.valid() ==> final(store)@.valid(),
        old(store)@.set_like() ==> final(store)@.set_like(),
{
    let object_id = match target(id) {
        Ok(object_id) => object_id,
        Err(e) => {
            return Err(e);
        },
    };
    let update = user_update(updated_user, now);
    let updated = match store.update_user(&object_id, &update) {
        Some(found) => Ok(found),
        None => Err(StoreFault),
    };
    proof {
        lemma_id_from(object_id);
        if !old(store)@.faulted() && !old(store)@.has_user(object_id) {
            assert(users_with_update(old(store)@.users, object_id, update@) =~= old(store)@.users);
        }
    }
    update_user(context, updated)
}

/// Sets the administrator's mark of the user that the identifier names,
/// for an admitted caller.
pub fn update_stored_rank(store: &mut MemoryStore, context: &AuthContext, id: &str, admin: bool) -> (r:
    Result<String, StatusCategory>)
    ensures
        (final(store)@, answer_text(r)) == rank_updating(old(store)@, id@, admin),
        old(store)@.valid() ==> final(store)@.valid(),
        old(store)@.set_like() ==> final(store)@.set_like(),
{
    let object_id = match target(id) {
        Ok(object_id) => object_id,
        Err(e) => {
            return Err(e);
        },
    };
    let updated = match store.update_user_rank(&object_id, admin) {
        Some(found) => Ok(found),
        None => Err(StoreFault),
    };
    proof {
        lemma_id_from(object_id);
        if !old(store)@.faulted() && !old(store)@.has_user(object_id) {
            assert(users_with_admin(old(store)@.users, object_id, admin) =~= old(store)@.users);
        }
    }
    update_user_rank(context, updated)
}

/// Updates the event that the identifier names with what the request
/// carries, for a caller admitted as an administrator.
pub fn update_stored_event(
    store: &mut MemoryStore,
    context: &AuthContext,
    event_id: &str,
    updated_event: &Event,
) -> (r: Result<String, StatusCategory>)
    ensures
        (final(store)@, answer_text(r)) == event_updating(
            old(store)@,
            context@,
            event_id@,
            updated_event@,
        ),
        old(store)@.valid() ==> final(store)@.valid(),
        old(store)@.set_like() ==> final(store)@.set_like(),
{
    match permits(context, Route::UpdateEvent) {
        Ok(()) => {},
        Err(e) => {
            return Err(e);
        },
    }
    let event_oid = match target(event_id) {
        Ok(event_oid) => event_oid,
        Err(e) => {
            return Err(e);
        },
    };
    let update = event_update(updated_event);
    let updated = match store.update_event(&event_oid, &update) {
        Some(found) => Ok(found),
        None => Err(StoreFault),
    };
    proof {
        lemma_id_from(event_oid);
        if !old(store)@.faulted() && !old(store)@.has_event(event_oid) {
            assert(events_with_update(old(store)@.events, event_oid, update@)
                =~= old(store)@.events);
        }
    }
    update_event(context, updated)
}

/// An update of a user writes four fields of one user and nothing else:
/// no event changes, no other user changes, and the user updated keeps the
/// password's hash, the administrator's mark, the list of events and every
/// other field it had. Whatever password or list of events the request
/// carries is not written.
pub proof fn law_user_update_writes_four_fields(
    s: StoreView,
    id: Seq<char>,
    updated: UserView,
    now: u64,
)
    ensures
        ({
            let (t, answer) = user_updating(s, id, updated, now);
            &&& t.events == s.events
            &&& t.revoked == s.revoked
            &&& t.users.len() == s.users.len()
            &&& forall|i: int|
                0 <= i < s.users.len() ==> s.users[i] == (UserView {
                    name: s.users[i].name,
                    email: s.users[i].email,
                    wallet: s.users[i].wallet,
                    updated_at: s.users[i].updated_at,
                    ..#[trigger] t.users[i]
                })
            &&& forall|i: int|
                0 <= i < s.users.len() && s.users[i].id != Some(id_from(id_bytes(id)))
                    ==> #[trigger] t.users[i] == s.users[i]
            &&& answer is Ok ==> forall|i: int|
                0 <= i < s.users.len() && s.users[i].id == Some(id_from(id_bytes(id))) ==> {
                    &&& (#[trigger] t.users[i]).name == updated.name
                    &&& t.users[i].email == updated.email
                    &&& t.users[i].wallet == updated.wallet
                    &&& t.users[i].updated_at == now
                }
            &&& answer is Err ==> t.users == s.users
        }),
{
}

/// An update of an event writes the name and the place of one event and
/// nothing else: no user changes, no other event changes, and the event
/// updated keeps its attendee list, its pin and every other field it had.
/// Whatever attendees the request carries are not written.
pub proof fn law_event_update_writes_two_fields(
    s: StoreView,
    grant: Grant,
    id: Seq<char>,
    updated: EventView,
)
    ensures
        ({
            let (t, answer) = event_updating(s, grant, id, updated);
            &&& t.users == s.users
            &&& t.revoked == s.revoked
            &&& t.events.len() == s.events.len()
            &&& forall|i: int|
                0 <= i < s.events.len() ==> s.events[i] == (EventView {
                    name: s.events[i].name,
                    location: s.events[i].location,
                    ..#[trigger] t.events[i]
                })
            &&& forall|i: int|
                0 <= i < s.events.len() && s.events[i].id != Some(id_from(id_bytes(id)))
                    ==> #[trigger] t.events[i] == s.events[i]
            &&& answer is Ok ==> forall|i: int|
                0 <= i < s.events.len() && s.events[i].id == Some(id_from(id_bytes(id))) ==> {
                    &&& (#[trigger] t.events[i]).name == updated.name
                    &&& t.events[i].location == updated.location
                }
            &&& answer is Err ==> t.events == s.events
        }),
{
}

} // verus!
