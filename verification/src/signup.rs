use crate::clock::default_datetime;
use crate::failure::StatusCategory;
use crate::ident::DocId;
use crate::login::bcrypt_verdict;
use crate::respond::StoreFault;
use crate::models::{texts, User, UserType, UserView};
use vstd::prelude::*;
use vstd::string::StringExecFns;

verus! {

/// The error of the password hasher.
#[verifier::external_type_specification]
#[verifier::external_body]
pub struct ExBcryptError(bcrypt::BcryptError);

/// `bcrypt::hash` at the crate's `DEFAULT_COST`. The hash is salted from
/// the machine's randomness, so two calls on one password differ, and the
/// call fails when no randomness can be had. Whatever hash comes back
/// spells out the cost and the salt it was made with, so `bcrypt::verify`
/// makes the same hash from the same password again and accepts it.
#[verifier::external_body]
fn hash_password(password: &str) -> (hashed: Result<String, bcrypt::BcryptError>)
    ensures
        hashed matches Ok(hash) ==> bcrypt_verdict(password@, hash@) == Some(true),
{
    bcrypt::hash(password, bcrypt::DEFAULT_COST)
}

/// What a sign-up sends. It has the shape of a user; `password` is still
/// the password itself.
#[derive(Debug)]
pub struct SignUPDto {
    pub id: Option<DocId>,
    pub name: String,
    pub email: String,
    pub tel: String,
    pub password: String,
    pub wallet: String,
    pub admin: Option<bool>,
    pub user_type: UserType,
    pub role: String,
    pub stack: Vec<String>,
    pub graduate: bool,
    pub level: i32,
    pub department: String,
    pub university: String,
    pub student: String,
    pub attending_events: Vec<DocId>,
    pub created_at: u64,
    pub updated_at: u64,
}

impl View for SignUPDto {
    type V = UserView;

    open spec fn view(&self) -> UserView {
        UserView {
            id: self.id,
            name: self.name@,
            email: self.email@,
            tel: self.tel@,
            password: self.password@,
            wallet: self.wallet@,
            admin: self.admin,
            user_type: self.user_type,
            role: self.role@,
            stack: texts(self.stack@),
            graduate: self.graduate,
            level: self.level,
            department: self.department@,
            university: self.university@,
            student: self.student@,
            attending_events: self.attending_events@,
            created_at: self.created_at,
            updated_at: self.updated_at,
        }
    }
}

/// What a user may see of their own account: everything but the password's
/// hash.
#[derive(Debug)]
pub struct Profile {
    pub id: Option<DocId>,
    pub name: String,
    pub email: String,
    pub tel: String,
    pub wallet: String,
    pub admin: Option<bool>,
    pub user_type: UserType,
    pub role: String,
    pub stack: Vec<String>,
    pub graduate: bool,
    pub level: i32,
    pub department: String,
    pub university: String,
    pub student: String,
    pub attending_events: Vec<DocId>,
    pub created_at: u64,
    pub updated_at: u64,
}

/// What a `Profile` holds.
pub struct ProfileView {
    pub id: Option<DocId>,
    pub name: Seq<char>,
    pub email: Seq<char>,
    pub tel: Seq<char>,
    pub wallet: Seq<char>,
    pub admin: Option<bool>,
    pub user_type: UserType,
    pub role: Seq<char>,
    pub stack: Seq<Seq<char>>,
    pub graduate: bool,
    pub level: i32,
    pub department: Seq<char>,
    pub university: Seq<char>,
    pub student: Seq<char>,
    pub attending_events: Seq<DocId>,
    pub created_at: u64,
    pub updated_at: u64,
}

impl View for Profile {
    type V = ProfileView;

    open spec fn view(&self) -> ProfileView {
        ProfileView {
            id: self.id,
            name: self.name@,
            email: self.email@,
            tel: self.tel@,
            wallet: self.wallet@,
            admin: self.admin,
            user_type: self.user_type,
            role: self.role@,
            stack: texts(self.stack@),
            graduate: self.graduate,
            level: self.level,
            department: self.department@,
            university: self.university@,
            student: self.student@,
            attending_events: self.attending_events@,
            created_at: self.created_at,
            updated_at: self.updated_at,
        }
    }
}

/// The profile of a user: the user without the password's hash.
pub open spec fn profile_of(user: UserView) -> ProfileView {
    ProfileView {
        id: user.id,
        name: user.name,
        email: user.email,
        tel: user.tel,
        wallet: user.wallet,
        admin: user.admin,
        user_type: user.user_type,
        role: user.role,
        stack: user.stack,
        graduate: user.graduate,
        level: user.level,
        department: user.department,
        university: user.university,
        student: user.student,
        attending_events: user.attending_events,
        created_at: user.created_at,
        updated_at: user.updated_at,
    }
}

/// Why a sign-up was turned down.
#[derive(Debug, Clone, Copy, PartialEq, Eq, Structural)]
pub enum SignUpError {
    /// The lookup of the address failed.
    LookupFailed,
    /// The address is taken.
    UserExists,
    /// A core team member gave a level, a department or a university.
    CoreTeamHasStudies,
    /// A core team member gave a stack.
    CoreTeamHasStack,
    /// A hacker's role is none of the known ones.
    InvalidHackerRole,
    /// A graduated hacker gave a level, a department or a university.
    GraduateHackerHasStudies,
    /// A hacker who has not graduated lacks a level, a department or a
    /// university.
    StudentHackerLacksStudies,
    /// Any other user gave a role or a stack.
    RandomHasRoleOrStack,
    /// Any other user who has graduated gave a level, a department or a
    /// university.
    GraduateRandomHasStudies,
    /// The password could not be hashed.
    HashingFailed,
}

impl SignUpError {
    /// The class a refusal is reported under: a failed lookup as a server
    /// error, a taken address and a failed hashing as a conflict, a broken
    /// rule as bad input.
    pub open spec fn spec_category(self) -> StatusCategory {
        match self {
            SignUpError::LookupFailed => StatusCategory::TransientServerError,
            SignUpError::UserExists => StatusCategory::Conflict,
            SignUpError::HashingFailed => StatusCategory::Conflict,
            _ => StatusCategory::BadInput,
        }
    }

    /// The words a refusal is reported in.
    pub open spec fn spec_message(self) -> Seq<char> {
        match self {
            SignUpError::LookupFailed => "Error checking for existing users."@,
            SignUpError::UserExists => "User already exists"@,
            SignUpError::CoreTeamHasStudies =>
                "Core Team members should not have level, department, or university."@,
            SignUpError::CoreTeamHasStack => "Core Team members should not have a stack."@,
            SignUpError::InvalidHackerRole => "Invalid role for hacker."@,
            SignUpError::GraduateHackerHasStudies =>
                "Graduated hackers should not have level, department, or university."@,
            SignUpError::StudentHackerLacksStudies =>
                "Non-graduated hackers must have level, department, and university."@,
            SignUpError::RandomHasRoleOrStack => "Random users should not have role or stack."@,
            SignUpError::GraduateRandomHasStudies =>
                "Graduated random users should not have level, department, or university."@,
            SignUpError::HashingFailed => "Error hashing password"@,
        }
    }

    /// Sorts a refusal into its status class.
    #[verifier::when_used_as_spec(spec_category)]
    pub fn category(self) -> (c: StatusCategory)
        ensures
            c == self.spec_category(),
    {
        match self {
            SignUpError::LookupFailed => StatusCategory::TransientServerError,
            SignUpError::UserExists => StatusCategory::Conflict,
            SignUpError::HashingFailed => StatusCategory::Conflict,
            _ => StatusCategory::BadInput,
        }
    }

    /// Puts a refusal into words.
    pub fn message(self) -> (m: String)
        ensures
            m@ == self.spec_message(),
    {
        match self {
            SignUpError::LookupFailed => String::from_str("Error checking for existing users."),
            SignUpError::UserExists => String::from_str("User already exists"),
            SignUpError::CoreTeamHasStudies => String::from_str(
                "Core Team members should not have level, department, or university.",
            ),
            SignUpError::CoreTeamHasStack => String::from_str(
                "Core Team members should not have a stack.",
            ),
            SignUpError::InvalidHackerRole => String::from_str("Invalid role for hacker."),
            SignUpError::GraduateHackerHasStudies => String::from_str(
                "Graduated hackers should not have level, department, or university.",
            ),
            SignUpError::StudentHackerLacksStudies => String::from_str(
                "Non-graduated hackers must have level, department, and university.",
            ),
            SignUpError::RandomHasRoleOrStack => String::from_str(
                "Random users should not have role or stack.",
            ),
            SignUpError::GraduateRandomHasStudies => String::from_str(
                "Graduated random users should not have level, department, or university.",
            ),
            SignUpError::HashingFailed => String::from_str("Error hashing password"),
        }
    }
}

/// Whether the text is one of the roles a hacker can have.
pub open spec fn is_hacker_role(role: Seq<char>) -> bool {
    ||| role == "backend"@
    ||| role == "frontend"@
    ||| role == "smartcontract dev"@
    ||| role == "product manager"@
    ||| role == "UIUX"@
}

/// Whether the sign-up names a level, a department or a university.
pub open spec fn has_studies(user: UserView) -> bool {
    user.level != 0 || user.department.len() > 0 || user.university.len() > 0
}

/// Whether the sign-up names a level, a department and a university.
pub open spec fn has_all_studies(user: UserView) -> bool {
    user.level != 0 && user.department.len() > 0 && user.university.len() > 0
}

/// The first rule that a sign-up breaks, if any. A lookup of the address
/// that failed comes first, then a taken address, then the rules of the
/// user's group; a core team member counts as graduated whatever was sent.
pub open spec fn sign_up_fault(user: UserView, existing: Result<bool, StoreFault>) -> Option<
    SignUpError,
> {
    if existing is Err {
        Some(SignUpError::LookupFailed)
    } else if existing == Ok::<bool, StoreFault>(true) {
        Some(SignUpError::UserExists)
    } else {
        match user.user_type {
            UserType::CORETEAM => if has_studies(user) {
                Some(SignUpError::CoreTeamHasStudies)
            } else if user.stack.len() > 0 {
                Some(SignUpError::CoreTeamHasStack)
            } else {
                None
            },
            UserType::HACKER => if !is_hacker_role(user.role) {
                Some(SignUpError::InvalidHackerRole)
            } else if user.graduate && has_studies(user) {
                Some(SignUpError::GraduateHackerHasStudies)
            } else if !user.graduate && !has_all_studies(user) {
                Some(SignUpError::StudentHackerLacksStudies)
            } else {
                None
            },
            UserType::RANDOM => if user.role.len() > 0 || user.stack.len() > 0 {
                Some(SignUpError::RandomHasRoleOrStack)
            } else if user.graduate && has_studies(user) {
                Some(SignUpError::GraduateRandomHasStudies)
            } else {
                None
            },
        }
    }
}

/// The user that a sign-up becomes: not yet stored, never an administrator,
/// attending nothing, stamped with `now`, with the hash in place of the
/// password, and graduated if of the core team.
pub open spec fn registered(user: UserView, hash: Seq<char>, now: u64) -> UserView {
    UserView {
        id: None,
        password: hash,
        admin: Some(false),
        graduate: user.user_type == UserType::CORETEAM || user.graduate,
        attending_events: Seq::empty(),
        created_at: now,
        updated_at: now,
        ..user
    }
}

fn names_studies(user: &SignUPDto) -> (b: bool)
    ensures
        b == has_studies(user@),
{
    user.level != 0 || !user.department.as_str().is_empty() || !user.university.as_str().is_empty()
}

fn hacker_role(role: &String) -> (b: bool)
    ensures
        b == is_hacker_role(role@),
{
    *role == String::from_str("backend") || *role == String::from_str("frontend") || *role
        == String::from_str("smartcontract dev") || *role == String::from_str("product manager")
        || *role == String::from_str("UIUX")
}

/// Holds a sign-up against the rules of its group.
pub fn check_sign_up(user: &SignUPDto, existing: Result<bool, StoreFault>) -> (r: Result<
    (),
    SignUpError,
>)
    ensures
        r == match sign_up_fault(user@, existing) {
            Some(e) => Err::<(), SignUpError>(e),
            None => Ok::<(), SignUpError>(()),
        },
{
    match existing {
        Err(_) => {
            return Err(SignUpError::LookupFailed);
        },
        Ok(true) => {
            return Err(SignUpError::UserExists);
        },
        Ok(false) => {},
    }
    match user.user_type {
        UserType::CORETEAM => {
            if names_studies(user) {
                return Err(SignUpError::CoreTeamHasStudies);
            }
            if user.stack.len() > 0 {
                return Err(SignUpError::CoreTeamHasStack);
            }
        },
        UserType::HACKER => {
            if !hacker_role(&user.role) {
                return Err(SignUpError::InvalidHackerRole);
            }
            if user.graduate && names_studies(user) {
                return Err(SignUpError::GraduateHackerHasStudies);
            }
            if !user.graduate && (user.level == 0 || user.department.as_str().is_empty()
                || user.university.as_str().is_empty()) {
                return Err(SignUpError::StudentHackerLacksStudies);
            }
        },
        UserType::RANDOM => {
            if !user.role.as_str().is_empty() || user.stack.len() > 0 {
                return Err(SignUpError::RandomHasRoleOrStack);
            }
            if user.graduate && names_studies(user) {
                return Err(SignUpError::GraduateRandomHasStudies);
            }
        },
    }
    Ok(())
}

/// Makes the user to store out of a sign-up that passed, the password's
/// hash, and the time.
pub fn new_user(user: SignUPDto, hash: String, now: u64) -> (r: User)
    ensures
        r@ == registered(user@, hash@, now),
{
    let graduate = match user.user_type {
        UserType::CORETEAM => true,
        _ => user.graduate,
    };
    let r = User {
        id: None,
        name: user.name,
        email: user.email,
        tel: user.tel,
        password: hash,
        wallet: user.wallet,
        admin: Some(false),
        user_type: user.user_type,
        role: user.role,
        stack: user.stack,
        graduate,
        level: user.level,
        department: user.department,
        university: user.university,
        student: user.student,
        attending_events: Vec::new(),
        created_at: now,
        updated_at: now,
    };
    assert(r@.attending_events =~= Seq::<DocId>::empty());
    r
}

/// Turns a sign-up into the user to store. `existing` is what the store
/// answered when asked whether it holds a user with the address.
///
/// A sign-up that breaks a rule is refused for the first rule it breaks.
/// One that passes becomes a user as `registered` says, stamped with the
/// time of the call and carrying a fresh hash of the password, which the
/// hasher accepts for that password, unless the hasher fails, which is
/// `HashingFailed`.
pub fn sign_up(user: SignUPDto, existing: Result<bool, StoreFault>) -> (r: Result<
    User,
    SignUpError,
>)
    ensures
        sign_up_fault(user@, existing) matches Some(e) ==> r == Err::<User, SignUpError>(e),
        sign_up_fault(user@, existing) is None ==> match r {
            Ok(stored) => {
                &&& stored@ == registered(user@, stored@.password, stored@.created_at)
                &&& bcrypt_verdict(user@.password, stored@.password) == Some(true)
                &&& stored@.created_at <= i64::MAX
            },
            Err(e) => e == SignUpError::HashingFailed,
        },
{
    match check_sign_up(&user, existing) {
        Err(e) => {
            return Err(e);
        },
        Ok(()) => {},
    }
    match hash_password(user.password.as_str()) {
        Ok(hash) => Ok(new_user(user, hash, default_datetime())),
        Err(_) => Err(SignUpError::HashingFailed),
    }
}

/// What a user may see of their own account.
pub fn profile(user: User) -> (r: Profile)
    ensures
        r@ == profile_of(user@),
{
    Profile {
        id: user.id,
        name: user.name,
        email: user.email,
        tel: user.tel,
        wallet: user.wallet,
        admin: user.admin,
        user_type: user.user_type,
        role: user.role,
        stack: user.stack,
        graduate: user.graduate,
        level: user.level,
        department: user.department,
        university: user.university,
        student: user.student,
        attending_events: user.attending_events,
        created_at: user.created_at,
        updated_at: user.updated_at,
    }
}

} // verus!
