use crate::failure::{AdmissionError, Failure};
use crate::hex::{encode_hex, hex_text};
use crate::ident::{id_from, lemma_id_from, DocId};
use hmac::Mac;
use vstd::prelude::*;
use vstd::slice::slice_subrange;

verus! {

/// Bytes of a token before its tag: subject, privilege, issue time, expiry.
pub const PAYLOAD_LEN: usize = 29;

/// Bytes of a token's tag.
pub const TAG_LEN: usize = 32;

/// Bytes of a whole token.
pub const TOKEN_LEN: usize = 61;

/// What a token entitles its bearer to.
#[derive(Debug, Clone, Copy, PartialEq, Eq, Structural)]
pub enum Privilege {
    Ordinary,
    Admin,
}

/// The identifier of one issued token: its authentication tag. The
/// revocation ledger is keyed by it.
#[derive(Debug, Clone, Copy)]
pub struct TokenId {
    pub bytes: [u8; 32],
}

impl View for TokenId {
    type V = Seq<u8>;

    open spec fn view(&self) -> Seq<u8> {
        self.bytes@
    }
}

impl PartialEq for TokenId {
    fn eq(&self, other: &TokenId) -> (b: bool) {
        self.same(other)
    }
}

impl Eq for TokenId {}

impl vstd::std_specs::cmp::PartialEqSpecImpl for TokenId {
    open spec fn obeys_eq_spec() -> bool {
        true
    }

    open spec fn eq_spec(&self, other: &TokenId) -> bool {
        *self == *other
    }
}

impl TokenId {
    /// Whether two token identifiers are the same.
    pub fn same(&self, other: &TokenId) -> (b: bool)
        ensures
            b == (*self == *other),
    {
        let mut i: usize = 0;
        while i < 32
            invariant
                i <= 32,
                forall|k: int| 0 <= k < i ==> self.bytes[k] == other.bytes[k],
            decreases 32 - i,
        {
            if self.bytes[i] != other.bytes[i] {
                return false;
            }
            i += 1;
        }
        assert(self.bytes =~= other.bytes);
        true
    }
}

/// The token identifier whose bytes are the given thirty-two.
pub open spec fn tag_from(bytes: Seq<u8>) -> TokenId {
    choose|id: TokenId| id@ == bytes
}

/// A token identifier is the one its own bytes give.
pub proof fn lemma_tag_from(id: TokenId)
    ensures
        tag_from(id@) == id,
{
    let other = tag_from(id@);
    assert(other@ == id@);
    assert(forall|i: int| 0 <= i < 32 ==> other.bytes[i] == other@[i]);
    assert(forall|i: int| 0 <= i < 32 ==> id.bytes[i] == id@[i]);
    assert(other.bytes =~= id.bytes);
}

/// What a session token says: who it speaks for, with what privilege, from
/// when until when, and which token it is.
#[derive(Debug, Clone, Copy)]
pub struct SessionToken {
    pub subject: DocId,
    pub privilege: Privilege,
    /// Seconds since the Unix epoch.
    pub issued_at: u64,
    /// Seconds since the Unix epoch; the token is good up to and including
    /// this second.
    pub expires_at: u64,
    pub token_id: TokenId,
}

/// A freshly issued token: the bytes to hand to the bearer, and what they say.
#[derive(Debug)]
pub struct IssuedToken {
    pub token: Vec<u8>,
    pub session: SessionToken,
}

impl IssuedToken {
    /// The token as text, as it is handed to its bearer.
    pub fn text(&self) -> (text: String)
        ensures
            text@ == hex_text(self.token@),
    {
        encode_hex(self.token.as_slice())
    }
}

/// The HMAC-SHA256 tag of a message under a key.
pub uninterp spec fn hmac_sha256(key: Seq<u8>, message: Seq<u8>) -> Seq<u8>;

/// `hmac::Mac::finalize` on an `Hmac<Sha256>` that was keyed with `key` and
/// fed `message`: the thirty-two bytes of the tag. The tag depends on the key
/// and the message alone. HMAC takes a key of any length, so keying never
/// fails.
#[verifier::external_body]
fn mac_tag(key: &[u8], message: &[u8]) -> (tag: [u8; 32])
    ensures
        tag@ == hmac_sha256(key@, message@),
{
    let mut mac = hmac::Hmac::<sha2::Sha256>::new_from_slice(key).unwrap();
    mac.update(message);
    mac.finalize().into_bytes().into()
}

/// `hmac::Mac::verify_slice` on an `Hmac<Sha256>` that was keyed with `key`
/// and fed `message`: whether `tag` is the message's tag, compared in constant
/// time. A slice of any other length than the tag's is never it.
#[verifier::external_body]
fn mac_verifies(key: &[u8], message: &[u8], tag: &[u8]) -> (ok: bool)
    ensures
        ok == (tag@ == hmac_sha256(key@, message@)),
{
    let mut mac = hmac::Hmac::<sha2::Sha256>::new_from_slice(key).unwrap();
    mac.update(message);
    mac.verify_slice(tag).is_ok()
}

/// The byte that stands for a privilege.
pub open spec fn privilege_byte(p: Privilege) -> u8 {
    match p {
        Privilege::Ordinary => 0,
        Privilege::Admin => 1,
    }
}

/// The eight bytes of a number, the most significant first.
pub open spec fn u64_bytes(v: u64) -> Seq<u8> {
    let q1 = v / 256;
    let q2 = q1 / 256;
    let q3 = q2 / 256;
    let q4 = q3 / 256;
    let q5 = q4 / 256;
    let q6 = q5 / 256;
    let q7 = q6 / 256;
    seq![
        (q7 % 256) as u8,
        (q6 % 256) as u8,
        (q5 % 256) as u8,
        (q4 % 256) as u8,
        (q3 % 256) as u8,
        (q2 % 256) as u8,
        (q1 % 256) as u8,
        (v % 256) as u8,
    ]
}

/// The number that eight bytes spell, the most significant first.
pub open spec fn u64_value(b: Seq<u8>) -> int
    recommends
        b.len() == 8,
{
    ((((((b[0] * 256 + b[1]) * 256 + b[2]) * 256 + b[3]) * 256 + b[4]) * 256 + b[5]) * 256
        + b[6]) * 256 + b[7]
}

/// Reading back the bytes of a number gives the number.
pub proof fn lemma_u64_round_trip(v: u64)
    ensures
        u64_bytes(v).len() == 8,
        u64_value(u64_bytes(v)) == v,
{
}

/// The payload of a token: what is signed.
pub open spec fn payload(
    subject: DocId,
    privilege: Privilege,
    issued_at: u64,
    expires_at: u64,
) -> Seq<u8> {
    subject@ + seq![privilege_byte(privilege)] + u64_bytes(issued_at) + u64_bytes(expires_at)
}

/// The bytes of a token: its payload, then the payload's tag under the key.
pub open spec fn encoded(
    key: Seq<u8>,
    subject: DocId,
    privilege: Privilege,
    issued_at: u64,
    expires_at: u64,
) -> Seq<u8> {
    let p = payload(subject, privilege, issued_at, expires_at);
    p + hmac_sha256(key, p)
}

/// What a token of the right shape says, whoever made it: `None` for bytes
/// of another length or with a privilege byte that stands for nothing.
pub open spec fn decoded(raw: Seq<u8>) -> Option<SessionToken> {
    if raw.len() == TOKEN_LEN && raw[12] <= 1 {
        Some(
            SessionToken {
                subject: id_from(raw.subrange(0, 12)),
                privilege: if raw[12] == 1 {
                    Privilege::Admin
                } else {
                    Privilege::Ordinary
                },
                issued_at: u64_value(raw.subrange(13, 21)) as u64,
                expires_at: u64_value(raw.subrange(21, 29)) as u64,
                token_id: tag_from(raw.subrange(29, 61)),
            },
        )
    } else {
        None
    }
}

/// Whether the token's tag is the tag of its payload under the key.
pub open spec fn authentic(key: Seq<u8>, raw: Seq<u8>) -> bool {
    &&& raw.len() == TOKEN_LEN
    &&& raw.subrange(29, 61) == hmac_sha256(key, raw.subrange(0, 29))
}

/// The verdict on a token at a given time: `InvalidToken` unless it has the
/// right shape and an authentic tag, then `ExpiredToken` once the time is
/// past its expiry, else what it says.
pub open spec fn validated(key: Seq<u8>, raw: Seq<u8>, now: u64) -> Result<
    SessionToken,
    AdmissionError,
> {
    match decoded(raw) {
        Some(session) => if !authentic(key, raw) {
            Err(AdmissionError::InvalidToken)
        } else if now > session.expires_at {
            Err(AdmissionError::ExpiredToken)
        } else {
            Ok(session)
        },
        None => Err(AdmissionError::InvalidToken),
    }
}

fn push_u64(out: &mut Vec<u8>, v: u64)
    ensures
        final(out)@ == old(out)@ + u64_bytes(v),
{
    let q1: u64 = v / 256;
    let q2: u64 = q1 / 256;
    let q3: u64 = q2 / 256;
    let q4: u64 = q3 / 256;
    let q5: u64 = q4 / 256;
    let q6: u64 = q5 / 256;
    let q7: u64 = q6 / 256;
    out.push((q7 % 256) as u8);
    out.push((q6 % 256) as u8);
    out.push((q5 % 256) as u8);
    out.push((q4 % 256) as u8);
    out.push((q3 % 256) as u8);
    out.push((q2 % 256) as u8);
    out.push((q1 % 256) as u8);
    out.push((v % 256) as u8);
    assert(out@ =~= old(out)@ + u64_bytes(v));
}

fn read_u64(raw: &[u8], at: usize) -> (v: u64)
    requires
        at + 8 <= raw@.len(),
    ensures
        v == u64_value(raw@.subrange(at as int, at + 8)),
{
    let n: usize = raw.len();
    let mut v: u64 = 0;
    let mut k: usize = 0;
    let ghost b = raw@.subrange(at as int, at + 8);
    while k < 8
        invariant
            k <= 8,
            at + 8 <= n == raw@.len(),
            b == raw@.subrange(at as int, at + 8),
            k == 0 ==> v == 0,
            k == 1 ==> v == b[0],
            k == 2 ==> v == b[0] * 256 + b[1],
            k == 3 ==> v == (b[0] * 256 + b[1]) * 256 + b[2],
            k == 4 ==> v == ((b[0] * 256 + b[1]) * 256 + b[2]) * 256 + b[3],
            k == 5 ==> v == (((b[0] * 256 + b[1]) * 256 + b[2]) * 256 + b[3]) * 256 + b[4],
            k == 6 ==> v == ((((b[0] * 256 + b[1]) * 256 + b[2]) * 256 + b[3]) * 256 + b[4]) * 256
                + b[5],
            k == 7 ==> v == (((((b[0] * 256 + b[1]) * 256 + b[2]) * 256 + b[3]) * 256 + b[4])
                * 256 + b[5]) * 256 + b[6],
            k == 8 ==> v == u64_value(b),
        decreases 8 - k,
    {
        assert(raw@[at + k] == b[k as int]);
        v = v * 256 + raw[at + k] as u64;
        k += 1;
    }
    v
}

/// Issues a token for `subject` that is good from `now` for `lifetime`
/// seconds. The token and its identifier depend on the arguments alone.
/// Fails with `InvalidInput` exactly when the expiry would not fit in 64 bits.
pub fn issue(key: &[u8], subject: DocId, privilege: Privilege, now: u64, lifetime: u64) -> (r:
    Result<IssuedToken, Failure>)
    ensures
        r is Err <==> now + lifetime > u64::MAX,
        r matches Err(e) ==> e == Failure::InvalidInput,
        r matches Ok(t) ==> {
            &&& t.token@ == encoded(key@, subject, privilege, now, (now + lifetime) as u64)
            &&& t.session.subject == subject
            &&& t.session.privilege == privilege
            &&& t.session.issued_at == now
            &&& t.session.expires_at == now + lifetime
            &&& t.session.token_id@ == hmac_sha256(
                key@,
                payload(subject, privilege, now, (now + lifetime) as u64),
            )
            &&& decoded(t.token@) == Some(t.session)
            &&& authentic(key@, t.token@)
        },
{
    let expires_at = match now.checked_add(lifetime) {
        Some(e) => e,
        None => {
            return Err(Failure::InvalidInput);
        },
    };
    let mut token: Vec<u8> = Vec::new();
    let mut i: usize = 0;
    while i < 12
        invariant
            i <= 12,
            token@ == subject@.subrange(0, i as int),
        decreases 12 - i,
    {
        token.push(subject.bytes[i]);
        assert(token@ =~= subject@.subrange(0, i + 1));
        i += 1;
    }
    assert(token@ =~= subject@);
    token.push(
        match privilege {
            Privilege::Ordinary => 0u8,
            Privilege::Admin => 1u8,
        },
    );
    push_u64(&mut token, now);
    push_u64(&mut token, expires_at);
    let ghost p = payload(subject, privilege, now, expires_at);
    assert(token@ =~= p);
    let tag = mac_tag(key, token.as_slice());
    let mut j: usize = 0;
    while j < 32
        invariant
            j <= 32,
            token@ == p + tag@.subrange(0, j as int),
        decreases 32 - j,
    {
        token.push(tag[j]);
        assert(token@ =~= p + tag@.subrange(0, j + 1));
        j += 1;
    }
    let session = SessionToken {
        subject,
        privilege,
        issued_at: now,
        expires_at,
        token_id: TokenId { bytes: tag },
    };
    proof {
        assert(tag@.subrange(0, 32) =~= tag@);
        assert(token@ =~= p + tag@);
        lemma_u64_round_trip(now);
        lemma_u64_round_trip(expires_at);
        assert(token@.subrange(0, 12) =~= subject@);
        assert(token@.subrange(13, 21) =~= u64_bytes(now));
        assert(token@.subrange(21, 29) =~= u64_bytes(expires_at));
        assert(token@.subrange(29, 61) =~= tag@);
        assert(token@.subrange(0, 29) =~= p);
        lemma_id_from(subject);
        lemma_tag_from(session.token_id);
    }
    Ok(IssuedToken { token, session })
}

/// Judges a token at time `now`, from its bytes and the key alone.
pub fn validate(key: &[u8], raw: &[u8], now: u64) -> (r: Result<SessionToken, AdmissionError>)
    ensures
        r == validated(key@, raw@, now),
{
    if raw.len() != TOKEN_LEN {
        return Err(AdmissionError::InvalidToken);
    }
    let privilege = if raw[12] == 0 {
        Privilege::Ordinary
    } else if raw[12] == 1 {
        Privilege::Admin
    } else {
        return Err(AdmissionError::InvalidToken);
    };
    if !mac_verifies(key, slice_subrange(raw, 0, PAYLOAD_LEN), slice_subrange(raw, PAYLOAD_LEN, TOKEN_LEN)) {
        return Err(AdmissionError::InvalidToken);
    }
    let mut subject = [0u8; 12];
    let mut i: usize = 0;
    while i < 12
        invariant
            i <= 12,
            raw@.len() == TOKEN_LEN,
            forall|k: int| 0 <= k < i ==> subject[k] == raw@[k],
        decreases 12 - i,
    {
        subject[i] = raw[i];
        i += 1;
    }
    let mut tag = [0u8; 32];
    let mut j: usize = 0;
    while j < 32
        invariant
            j <= 32,
            raw@.len() == TOKEN_LEN,
            forall|k: int| 0 <= k < j ==> tag[k] == raw@[29 + k],
        decreases 32 - j,
    {
        tag[j] = raw[PAYLOAD_LEN + j];
        j += 1;
    }
    let session = SessionToken {
        subject: DocId { bytes: subject },
        privilege,
        issued_at: read_u64(raw, 13),
        expires_at: read_u64(raw, 21),
        token_id: TokenId { bytes: tag },
    };
    proof {
        assert(session.subject@ =~= raw@.subrange(0, 12));
        assert(session.token_id@ =~= raw@.subrange(29, 61));
        lemma_id_from(session.subject);
        lemma_tag_from(session.token_id);
    }
    if now > session.expires_at {
        Err(AdmissionError::ExpiredToken)
    } else {
        Ok(session)
    }
}

} // verus!
