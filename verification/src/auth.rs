use crate::failure::{AdmissionError, Failure};
use crate::hex::{decode_hex, hex_bytes, is_hex_text};
use crate::ident::DocId;
use crate::ledger::{lemma_pruned_lists, listed, live, pruned};
use crate::memory::MemoryStore;
use crate::store::{StoreReply, StoreReplyView, StoreRequest, StoreRequestView, StoreView};
use crate::token::{authentic, decoded, validate, validated, Privilege, SessionToken, TokenId};
use vstd::prelude::*;

verus! {

/// What an admission grants: who the caller is, with what privilege, and
/// under which token.
#[derive(Debug, Clone, Copy)]
pub struct Grant {
    pub subject: DocId,
    pub privilege: Privilege,
    pub token_id: TokenId,
}

/// The proof of an admission, handed to every protected operation. Only an
/// admission that succeeds makes one.
#[derive(Debug, Clone, Copy)]
pub struct AuthContext {
    grant: Grant,
}

impl View for AuthContext {
    type V = Grant;

    closed spec fn view(&self) -> Grant {
        self.grant
    }
}

impl AuthContext {
    /// The account the caller was admitted as.
    pub fn subject(&self) -> (id: DocId)
        ensures
            id == self@.subject,
    {
        self.grant.subject
    }

    /// The privilege the caller was admitted with.
    pub fn privilege(&self) -> (p: Privilege)
        ensures
            p == self@.privilege,
    {
        self.grant.privilege
    }

    /// The token the caller was admitted under.
    pub fn token_id(&self) -> (id: TokenId)
        ensures
            id == self@.token_id,
    {
        self.grant.token_id
    }

    /// Whether the caller was admitted as an administrator.
    pub fn is_admin(&self) -> (b: bool)
        ensures
            b == (self@.privilege == Privilege::Admin),
    {
        match self.grant.privilege {
            Privilege::Admin => true,
            Privilege::Ordinary => false,
        }
    }
}

/// One admission under way: the answer that is awaited, and what is known
/// already.
#[derive(Debug, Clone, Copy)]
pub enum Admission {
    /// The token stands by itself; the ledger's answer on it is awaited.
    Ledger { session: SessionToken, required: Privilege },
    /// The token is not revoked and its privilege suffices; the credential
    /// store's answer on the subject is awaited.
    Subject { session: SessionToken },
    /// The decision is made.
    Settled(Result<Grant, Failure>),
}

/// What an admission needs next: one more lookup, or nothing, because the
/// decision is made.
#[derive(Debug)]
pub enum AdmitStep {
    Ask(StoreRequest),
    Done(Result<AuthContext, Failure>),
}

/// What an `AdmitStep` holds.
pub enum AdmitStepView {
    Ask(StoreRequestView),
    Done(Result<Grant, Failure>),
}

impl View for AdmitStep {
    type V = AdmitStepView;

    open spec fn view(&self) -> AdmitStepView {
        match *self {
            AdmitStep::Ask(request) => AdmitStepView::Ask(request@),
            AdmitStep::Done(Ok(context)) => AdmitStepView::Done(Ok(context@)),
            AdmitStep::Done(Err(failure)) => AdmitStepView::Done(Err(failure)),
        }
    }
}

/// What a session's token grants.
pub open spec fn grant_of(session: SessionToken) -> Grant {
    Grant { subject: session.subject, privilege: session.privilege, token_id: session.token_id }
}

/// Whether a token with the claimed privilege may pass where `required` is
/// asked for.
pub open spec fn suffices(claimed: Privilege, required: Privilege) -> bool {
    required == Privilege::Ordinary || claimed == Privilege::Admin
}

impl Admission {
    /// The next move on the store's answer.
    pub open spec fn turn(self, reply: StoreReplyView) -> (Admission, AdmitStepView) {
        match self {
            Admission::Ledger { session, required } => match reply {
                StoreReplyView::Absent => if suffices(session.privilege, required) {
                    (
                        Admission::Subject { session },
                        AdmitStepView::Ask(StoreRequestView::FindUser { user_id: session.subject }),
                    )
                } else {
                    settled(Err(Failure::Admission(AdmissionError::InsufficientPrivilege)))
                },
                StoreReplyView::Present(_) => settled(
                    Err(Failure::Admission(AdmissionError::RevokedToken)),
                ),
                _ => settled(Err(Failure::PersistenceError)),
            },
            Admission::Subject { session } => match reply {
                StoreReplyView::Present(_) => settled(Ok(grant_of(session))),
                StoreReplyView::Absent => settled(
                    Err(Failure::Admission(AdmissionError::UnknownSubject)),
                ),
                _ => settled(Err(Failure::PersistenceError)),
            },
            Admission::Settled(outcome) => settled(outcome),
        }
    }

    /// The first move on a token: the token is judged by itself, and if it
    /// stands, the ledger is asked about it.
    pub open spec fn first(key: Seq<u8>, raw: Seq<u8>, required: Privilege, now: u64) -> (
        Admission,
        AdmitStepView,
    ) {
        match validated(key, raw, now) {
            Ok(session) => (
                Admission::Ledger { session, required },
                AdmitStepView::Ask(StoreRequestView::FindRevocation { token_id: session.token_id }),
            ),
            Err(e) => settled(Err(Failure::Admission(e))),
        }
    }

    /// The first move on a token that came as text: a text that spells no
    /// bytes is an invalid token, any other is judged by the bytes it spells.
    pub open spec fn first_text(key: Seq<u8>, text: Seq<char>, required: Privilege, now: u64) -> (
        Admission,
        AdmitStepView,
    ) {
        if is_hex_text(text) {
            Admission::first(key, hex_bytes(text), required, now)
        } else {
            settled(Err(Failure::Admission(AdmissionError::InvalidToken)))
        }
    }

    /// Starts an admission on a token that came as hexadecimal text.
    pub fn begin_text(key: &[u8], text: &str, required: Privilege, now: u64) -> (r: (
        Admission,
        AdmitStep,
    ))
        ensures
            (r.0, r.1@) == Admission::first_text(key@, text@, required, now),
    {
        match decode_hex(text) {
            Some(raw) => Admission::begin(key, raw.as_slice(), required, now),
            None => (
                Admission::Settled(Err(Failure::Admission(AdmissionError::InvalidToken))),
                AdmitStep::Done(Err(Failure::Admission(AdmissionError::InvalidToken))),
            ),
        }
    }

    /// Starts an admission. Nothing is written anywhere.
    pub fn begin(key: &[u8], raw: &[u8], required: Privilege, now: u64) -> (r: (
        Admission,
        AdmitStep,
    ))
        ensures
            (r.0, r.1@) == Admission::first(key@, raw@, required, now),
    {
        match validate(key, raw, now) {
            Ok(session) => (
                Admission::Ledger { session, required },
                AdmitStep::Ask(StoreRequest::FindRevocation { token_id: session.token_id }),
            ),
            Err(e) => (
                Admission::Settled(Err(Failure::Admission(e))),
                AdmitStep::Done(Err(Failure::Admission(e))),
            ),
        }
    }

    /// Takes the store's answer to the last request and says what is next.
    pub fn advance(&mut self, reply: &StoreReply) -> (step: AdmitStep)
        ensures
            (*final(self), step@) == old(self).turn(reply@),
    {
        let outcome: Result<Grant, Failure> = match *self {
            Admission::Ledger { session, required } => match reply {
                StoreReply::Absent => {
                    let enough = match (session.privilege, required) {
                        (_, Privilege::Ordinary) => true,
                        (Privilege::Admin, Privilege::Admin) => true,
                        (Privilege::Ordinary, Privilege::Admin) => false,
                    };
                    if enough {
                        *self = Admission::Subject { session };
                        return AdmitStep::Ask(StoreRequest::FindUser { user_id: session.subject });
                    }
                    Err(Failure::Admission(AdmissionError::InsufficientPrivilege))
                },
                StoreReply::Present(_) => Err(Failure::Admission(AdmissionError::RevokedToken)),
                _ => Err(Failure::PersistenceError),
            },
            Admission::Subject { session } => match reply {
                StoreReply::Present(_) => Ok(
                    Grant {
                        subject: session.subject,
                        privilege: session.privilege,
                        token_id: session.token_id,
                    },
                ),
                StoreReply::Absent => Err(Failure::Admission(AdmissionError::UnknownSubject)),
                _ => Err(Failure::PersistenceError),
            },
            Admission::Settled(outcome) => outcome,
        };
        *self = Admission::Settled(outcome);
        match outcome {
            Ok(grant) => AdmitStep::Done(Ok(AuthContext { grant })),
            Err(failure) => AdmitStep::Done(Err(failure)),
        }
    }
}

/// An admission with its decision made.
pub open spec fn settled(outcome: Result<Grant, Failure>) -> (Admission, AdmitStepView) {
    (Admission::Settled(outcome), AdmitStepView::Done(outcome))
}

/// The decision on a token, against a store in the given state.
pub open spec fn admitted(
    s: StoreView,
    key: Seq<u8>,
    raw: Seq<u8>,
    required: Privilege,
    now: u64,
) -> Result<Grant, Failure> {
    match validated(key, raw, now) {
        Err(e) => Err(Failure::Admission(e)),
        Ok(session) => if s.fault_at(0) {
            Err(Failure::PersistenceError)
        } else if listed(s.revoked, session.token_id) {
            Err(Failure::Admission(AdmissionError::RevokedToken))
        } else if !suffices(session.privilege, required) {
            Err(Failure::Admission(AdmissionError::InsufficientPrivilege))
        } else if s.fault_at(1) {
            Err(Failure::PersistenceError)
        } else if !s.has_user(session.subject) {
            Err(Failure::Admission(AdmissionError::UnknownSubject))
        } else {
            Ok(grant_of(session))
        },
    }
}

/// How many lookups are made before the decision.
pub open spec fn admit_calls(
    s: StoreView,
    key: Seq<u8>,
    raw: Seq<u8>,
    required: Privilege,
    now: u64,
) -> nat {
    match validated(key, raw, now) {
        Err(_) => 0,
        Ok(session) => if s.fault_at(0) || listed(s.revoked, session.token_id) || !suffices(
            session.privilege,
            required,
        ) {
            1
        } else {
            2
        },
    }
}

/// Decides whether the bearer of `raw` may proceed, against the store's
/// ledger and users. The store's documents are left as they were.
pub fn admit_bearer(
    store: &mut MemoryStore,
    key: &[u8],
    raw: &[u8],
    required: Privilege,
    now: u64,
) -> (r: Result<AuthContext, Failure>)
    ensures
        match r {
            Ok(context) => admitted(old(store)@, key@, raw@, required, now) == Ok::<
                Grant,
                Failure,
            >(context@),
            Err(failure) => admitted(old(store)@, key@, raw@, required, now) == Err::<
                Grant,
                Failure,
            >(failure),
        },
        final(store)@ == old(store)@.spent(admit_calls(old(store)@, key@, raw@, required, now)),
        old(store)@.valid() ==> final(store)@.valid(),
        old(store)@.set_like() ==> final(store)@.set_like(),
{
    let (mut admission, step) = Admission::begin(key, raw, required, now);
    let request = match step {
        AdmitStep::Ask(request) => request,
        AdmitStep::Done(outcome) => {
            assert(store@.spent(0).faults =~= store@.faults);
            return outcome;
        },
    };
    let reply = store.execute(request);
    let request = match admission.advance(&reply) {
        AdmitStep::Ask(request) => request,
        AdmitStep::Done(outcome) => {
            return outcome;
        },
    };
    let reply = store.execute(request);
    let outcome = match admission.advance(&reply) {
        AdmitStep::Ask(_) => Err(Failure::PersistenceError),
        AdmitStep::Done(outcome) => outcome,
    };
    assert(old(store)@.spent(1).spent(1).faults =~= old(store)@.spent(2).faults);
    outcome
}

/// A token past its expiry is turned away as expired, whatever the ledger
/// holds.
pub proof fn law_expired_token_is_rejected(
    s: StoreView,
    key: Seq<u8>,
    raw: Seq<u8>,
    required: Privilege,
    now: u64,
)
    requires
        decoded(raw) is Some,
        authentic(key, raw),
        now > decoded(raw)->0.expires_at,
    ensures
        admitted(s, key, raw, required, now) == Err::<Grant, Failure>(
            Failure::Admission(AdmissionError::ExpiredToken),
        ),
{
}

/// A token that the ledger names is turned away although its signature and
/// expiry are in order.
pub proof fn law_revoked_token_is_rejected(
    s: StoreView,
    key: Seq<u8>,
    raw: Seq<u8>,
    required: Privilege,
    now: u64,
)
    requires
        validated(key, raw, now) is Ok,
        listed(s.revoked, validated(key, raw, now)->Ok_0.token_id),
    ensures
        admitted(s, key, raw, required, now) is Err,
        !s.fault_at(0) ==> admitted(s, key, raw, required, now) == Err::<Grant, Failure>(
            Failure::Admission(AdmissionError::RevokedToken),
        ),
{
}

/// Cutting the ledger at a time that is not in the future changes no
/// decision, as long as each entry carries an expiry no earlier than that of
/// the token it names.
pub proof fn law_pruning_changes_no_decision(
    s: StoreView,
    cut: u64,
    key: Seq<u8>,
    raw: Seq<u8>,
    required: Privilege,
    now: u64,
)
    requires
        cut <= now,
        forall|k: int|
            0 <= k < s.revoked.len() && decoded(raw) is Some && (
            #[trigger] s.revoked[k]).token_id == decoded(raw)->0.token_id
                ==> s.revoked[k].expires_at >= decoded(raw)->0.expires_at,
    ensures
        admitted(StoreView { revoked: pruned(s.revoked, cut), ..s }, key, raw, required, now)
            == admitted(s, key, raw, required, now),
{
    if validated(key, raw, now) is Ok {
        let session = validated(key, raw, now)->Ok_0;
        lemma_pruned_lists(s.revoked, cut, session.token_id);
        if listed(s.revoked, session.token_id) {
            let k = choose|k: int|
                0 <= k < s.revoked.len() && (#[trigger] s.revoked[k]).token_id == session.token_id;
            assert(live(s.revoked[k], cut));
        }
    }
}

} // verus!
