use crate::config::CryptoService;
use crate::crypto::{argon2_accepts, argon2_phc};
use crate::error::AppErrorKind;
use crate::json::json_text_field;
use crate::oauth::{access_token_from_reply, is_success, AuthRequest, ExchangeFailure};
use crate::users::{
    conflict_of, fresh_user, has_id, validation_of, with_code, with_token, CreateError,
    InvalidField, NewUser, User, UserRepository,
};
use vstd::prelude::*;
use vstd::string::*;

verus! {

/// Why a signup is refused.
#[derive(Debug, Clone, Copy, PartialEq, Eq, Structural)]
pub enum SignupError {
    Invalid(InvalidField),
    Taken(CreateError),
    HashFailed,
}

impl SignupError {
    /// The error kind a client sees: a taken username or email is the
    /// client's mistake, a clash of generated ids or a failed hash is not.
    pub fn kind(&self) -> (r: AppErrorKind)
        ensures
            r == match *self {
                SignupError::Invalid(_) => AppErrorKind::InvalidInput,
                SignupError::Taken(CreateError::IdTaken) => AppErrorKind::InternalError,
                SignupError::Taken(_) => AppErrorKind::InvalidInput,
                SignupError::HashFailed => AppErrorKind::InternalError,
            },
    {
        match self {
            SignupError::Invalid(_) => AppErrorKind::InvalidInput,
            SignupError::Taken(CreateError::IdTaken) => AppErrorKind::InternalError,
            SignupError::Taken(_) => AppErrorKind::InvalidInput,
            SignupError::HashFailed => AppErrorKind::InternalError,
        }
    }
}

/// Registers a user under the caller-chosen `id`: the request is validated,
/// the password hashed under `salt`, and the record stored unless a key is taken.
pub fn create_user(
    repository: &mut UserRepository,
    crypto_service: &CryptoService,
    user: NewUser,
    id: u128,
    salt: &[u8; 16],
    now: i64,
) -> (r: Result<User, SignupError>)
    requires
        old(repository).wf(),
    ensures
        final(repository).wf(),
        r is Err ==> final(repository)@ == old(repository)@,
        r matches Ok(u) ==> argon2_accepts(u.password_hash@, user.password@, crypto_service.key@),
        validation_of(user.username@, user.password@, user.email@) is Ok
            && 4 * user.password@.len() <= u32::MAX && 4 * crypto_service.key@.len() <= u32::MAX
            && conflict_of(old(repository)@, id, user.username@, user.email@) is None ==> r is Ok,
        validation_of(user.username@, user.password@, user.email@) matches Err(f) ==> r == Err::<User, SignupError>(SignupError::Invalid(f)),
        validation_of(user.username@, user.password@, user.email@) is Ok ==> {
            let hashed = argon2_phc(user.password@, salt@, crypto_service.key@);
            let conflict = conflict_of(old(repository)@, id, user.username@, user.email@);
            &&& hashed is None ==> r == Err::<User, SignupError>(SignupError::HashFailed)
            &&& (hashed is Some && conflict is Some) ==> r == Err::<User, SignupError>(SignupError::Taken(conflict.unwrap()))
            &&& (hashed is Some && conflict is None) ==> (r matches Ok(u)
                && fresh_user(u, id, user.username@, user.email@, hashed.unwrap(), now)
                && final(repository)@ == old(repository)@.push(u))
        },
{
    match user.validate() {
        Ok(()) => {},
        Err(f) => {
            return Err(SignupError::Invalid(f));
        },
    }
    let password_hash = match crypto_service.hash_password(user.password.as_str(), salt) {
        Some(h) => h,
        None => {
            return Err(SignupError::HashFailed);
        },
    };
    match repository.create(id, user, password_hash, now) {
        Ok(u) => Ok(u),
        Err(e) => Err(SignupError::Taken(e)),
    }
}

/// Keeps the authorization code that the provider sent back for user `user_id`.
pub fn callback_code(repository: &mut UserRepository, user_id: u128, info: &AuthRequest, now: i64) -> (r: Result<User, AppErrorKind>)
    requires
        old(repository).wf(),
    ensures
        final(repository).wf(),
        !has_id(old(repository)@, user_id) ==> r == Err::<User, AppErrorKind>(AppErrorKind::NotAuthorized)
            && final(repository)@ == old(repository)@,
        r matches Ok(u) ==> exists|k: int| 0 <= k < old(repository)@.len() && old(repository)@[k].id == user_id
            && u == with_code(old(repository)@[k], Some(u.code.unwrap()), now)
            && u.code.unwrap()@ == info.code@
            && final(repository)@ == old(repository)@.update(k, u),
        has_id(old(repository)@, user_id) ==> r is Ok,
{
    match repository.update_code(user_id, info.code.clone(), now) {
        Some(u) => Ok(u),
        None => Err(AppErrorKind::NotAuthorized),
    }
}

/// Why storing the outcome of a code exchange fails.
#[derive(Debug)]
pub enum ExchangeError {
    /// The provider refused: its status and body, unchanged.
    Refused(ExchangeFailure),
    /// No user has the given id.
    UnknownUser,
}

impl ExchangeError {
    /// The error kind a client sees.
    pub fn kind(&self) -> (r: AppErrorKind)
        ensures
            r == match *self {
                ExchangeError::Refused(_) => AppErrorKind::UpstreamExchangeFailed,
                ExchangeError::UnknownUser => AppErrorKind::NotAuthorized,
            },
    {
        match self {
            ExchangeError::Refused(_) => AppErrorKind::UpstreamExchangeFailed,
            ExchangeError::UnknownUser => AppErrorKind::NotAuthorized,
        }
    }
}

/// Stores the access token of the provider's reply to the code exchange for
/// user `user_id`; a refused exchange leaves the user unchanged and carries
/// the provider's status and body.
pub fn exchange_token(repository: &mut UserRepository, user_id: u128, status: u16, body: &str, now: i64) -> (r: Result<User, ExchangeError>)
    requires
        old(repository).wf(),
    ensures
        final(repository).wf(),
        r is Err ==> final(repository)@ == old(repository)@,
        !(is_success(status) && json_text_field(body@, "access_token"@) is Some) ==> (r matches Err(ExchangeError::Refused(f))
            && f.status == status && f.body@ == body@),
        (is_success(status) && json_text_field(body@, "access_token"@) is Some && !has_id(old(repository)@, user_id))
            ==> r matches Err(ExchangeError::UnknownUser),
        (is_success(status) && json_text_field(body@, "access_token"@) is Some && has_id(old(repository)@, user_id)) ==> (r matches Ok(u)
            && exists|k: int| 0 <= k < old(repository)@.len() && old(repository)@[k].id == user_id
            && u == with_token(old(repository)@[k], u.access_token, now)
            && json_text_field(body@, "access_token"@) == Some(u.access_token.unwrap()@)
            && final(repository)@ == old(repository)@.update(k, u)),
{
    let token = match access_token_from_reply(status, body) {
        Ok(t) => t,
        Err(f) => {
            return Err(ExchangeError::Refused(f));
        },
    };
    match repository.update_token(user_id, token.access_token, now) {
        Some(u) => Ok(u),
        None => Err(ExchangeError::UnknownUser),
    }
}

} // verus!
