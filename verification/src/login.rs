use crate::failure::StatusCategory;
use crate::ident::DocId;
use crate::models::User;
use crate::respond::StoreFault;
use crate::token::{authentic, decoded, encoded, issue, IssuedToken, Privilege};
use vstd::prelude::*;

verus! {

/// What `bcrypt::verify` says of a password and a stored hash: `Some(true)`
/// when the hash is of the password, `Some(false)` when it is of another,
/// `None` when the text is no hash at all. Every hash that the hasher makes
/// of a password is a hash of that password.
pub uninterp spec fn bcrypt_verdict(password: Seq<char>, hash: Seq<char>) -> Option<bool>;

/// `bcrypt::verify`. The hash names its own cost and salt, so the verdict
/// depends on the password and the hash alone; a text that is not a hash is
/// an error.
#[verifier::external_body]
fn verify_password(password: &str, hash: &str) -> (r: Result<bool, bcrypt::BcryptError>)
    ensures
        match r {
            Ok(same) => bcrypt_verdict(password@, hash@) == Some(same),
            Err(_) => bcrypt_verdict(password@, hash@) is None,
        },
{
    bcrypt::verify(password, hash)
}

/// Why a login was turned down.
#[derive(Debug, Clone, Copy, PartialEq, Eq, Structural)]
pub enum LoginError {
    /// No stored user has the address.
    UnknownUser,
    /// The password is not the user's.
    WrongPassword,
    /// The lookup failed, or what is stored as the user's hash is no hash.
    Unavailable,
    /// The token's expiry would not fit in 64 bits.
    LifetimeTooLong,
}

impl LoginError {
    /// The class a refusal is reported under.
    pub open spec fn spec_category(self) -> StatusCategory {
        match self {
            LoginError::UnknownUser => StatusCategory::Forbidden,
            LoginError::WrongPassword => StatusCategory::Forbidden,
            LoginError::Unavailable => StatusCategory::TransientServerError,
            LoginError::LifetimeTooLong => StatusCategory::BadInput,
        }
    }

    /// Sorts a refusal into its status class.
    #[verifier::when_used_as_spec(spec_category)]
    pub fn category(self) -> (c: StatusCategory)
        ensures
            c == self.spec_category(),
    {
        match self {
            LoginError::UnknownUser => StatusCategory::Forbidden,
            LoginError::WrongPassword => StatusCategory::Forbidden,
            LoginError::Unavailable => StatusCategory::TransientServerError,
            LoginError::LifetimeTooLong => StatusCategory::BadInput,
        }
    }
}

/// The privilege a user's tokens carry: an administrator's if the user is
/// marked as one.
pub open spec fn privilege_of(admin: Option<bool>) -> Privilege {
    if admin == Some(true) {
        Privilege::Admin
    } else {
        Privilege::Ordinary
    }
}

/// What a login comes to once the hasher has given its verdict on the
/// password: a refusal, or the subject and privilege to issue a token for.
pub open spec fn login_verdict(
    id: Option<DocId>,
    admin: Option<bool>,
    verdict: Option<bool>,
    now: u64,
    lifetime: u64,
) -> Result<(DocId, Privilege), LoginError> {
    if id is None {
        Err(LoginError::UnknownUser)
    } else if verdict is None {
        Err(LoginError::Unavailable)
    } else if verdict == Some(false) {
        Err(LoginError::WrongPassword)
    } else if now + lifetime > u64::MAX {
        Err(LoginError::LifetimeTooLong)
    } else {
        Ok((id->0, privilege_of(admin)))
    }
}

/// Settles a login from the stored user and the hasher's verdict on the
/// password: issues a token good from `now` for `lifetime` seconds, with the
/// user's privilege, or says why not.
pub fn settle_login(user: &User, verdict: Option<bool>, key: &[u8], now: u64, lifetime: u64) -> (r:
    Result<IssuedToken, LoginError>)
    ensures
        match login_verdict(user.id, user.admin, verdict, now, lifetime) {
            Err(e) => r == Err::<IssuedToken, LoginError>(e),
            Ok((subject, privilege)) => r matches Ok(issued) && {
                &&& issued.token@ == encoded(key@, subject, privilege, now, (now + lifetime) as u64)
                &&& issued.session.subject == subject
                &&& issued.session.privilege == privilege
                &&& issued.session.issued_at == now
                &&& issued.session.expires_at == now + lifetime
                &&& decoded(issued.token@) == Some(issued.session)
                &&& authentic(key@, issued.token@)
            },
        },
{
    let subject = match user.id {
        Some(id) => id,
        None => {
            return Err(LoginError::UnknownUser);
        },
    };
    match verdict {
        None => {
            return Err(LoginError::Unavailable);
        },
        Some(false) => {
            return Err(LoginError::WrongPassword);
        },
        Some(true) => {},
    }
    let privilege = match user.admin {
        Some(true) => Privilege::Admin,
        _ => Privilege::Ordinary,
    };
    match issue(key, subject, privilege, now, lifetime) {
        Ok(issued) => Ok(issued),
        Err(_) => Err(LoginError::LifetimeTooLong),
    }
}

/// Logs a user in. `found` is what the store read for the address given.
///
/// A failed read is `Unavailable` and a missing user `UnknownUser`; a user
/// that was found is settled as `settle_login` says, on the verdict that
/// the hasher gives on the password and the stored hash.
pub fn login(
    found: Result<Option<User>, StoreFault>,
    password: &str,
    key: &[u8],
    now: u64,
    lifetime: u64,
) -> (r: Result<IssuedToken, LoginError>)
    ensures
        match found {
            Err(_) => r == Err::<IssuedToken, LoginError>(LoginError::Unavailable),
            Ok(None) => r == Err::<IssuedToken, LoginError>(LoginError::UnknownUser),
            Ok(Some(user)) => match login_verdict(
                user.id,
                user.admin,
                bcrypt_verdict(password@, user.password@),
                now,
                lifetime,
            ) {
                Err(e) => r == Err::<IssuedToken, LoginError>(e),
                Ok((subject, privilege)) => r matches Ok(issued) && {
                    &&& issued.token@ == encoded(
                        key@,
                        subject,
                        privilege,
                        now,
                        (now + lifetime) as u64,
                    )
                    &&& issued.session.subject == subject
                    &&& issued.session.privilege == privilege
                    &&& issued.session.issued_at == now
                    &&& issued.session.expires_at == now + lifetime
                    &&& decoded(issued.token@) == Some(issued.session)
                    &&& authentic(key@, issued.token@)
                },
            },
        },
{
    match found {
        Err(_) => Err(LoginError::Unavailable),
        Ok(None) => Err(LoginError::UnknownUser),
        Ok(Some(user)) => {
            let verdict = match verify_password(password, user.password.as_str()) {
                Ok(same) => Some(same),
                Err(_) => None,
            };
            settle_login(&user, verdict, key, now, lifetime)
        },
    }
}

} // verus!
