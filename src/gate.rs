use crate::config::{CryptoService, Params};
use crate::crypto::argon2_accepts;
use crate::error::AppErrorKind;
use crate::ids::{parse_id, uuid_parsed, uuid_text};
use crate::oauth::{authorization_url, encoded_url};
use crate::token::{claims_verdict, jwt_opened, jwt_signed, TokenError, TOKEN_TTL_SECS};
use crate::users::{
    has_id, has_username, lemma_id_unique, lemma_named_unique, unique_keys, user_named, user_with_id, User,
    UserRepository,
};
use vstd::prelude::*;

verus! {

/// A request whose bearer token was verified and whose user exists.
#[derive(Debug, Clone, Copy)]
pub struct AuthenticatedUser(pub u128);

/// The identity a verified subject resolves to: a UUID naming a live user.
pub open spec fn gate_verdict(users: Seq<User>, subject: Result<Seq<char>, TokenError>) -> Result<u128, AppErrorKind> {
    match subject {
        Ok(sub) => match uuid_parsed(sub) {
            Some(id) => if has_id(users, id) {
                Ok(id)
            } else {
                Err(AppErrorKind::NotAuthorized)
            },
            None => Err(AppErrorKind::NotAuthorized),
        },
        Err(_) => Err(AppErrorKind::NotAuthorized),
    }
}

pub open spec fn gate_view(r: Result<AuthenticatedUser, AppErrorKind>) -> Result<u128, AppErrorKind> {
    match r {
        Ok(a) => Ok(a.0),
        Err(k) => Err(k),
    }
}

/// Turns the bearer token of a request into a verified identity at time `now`
/// (seconds): a missing, unreadable, badly signed or expired token, or one for
/// an unknown user, is refused.
pub fn authenticate(crypto: &CryptoService, users: &UserRepository, bearer: Option<&str>, now: i64) -> (r: Result<AuthenticatedUser, AppErrorKind>)
    requires
        users.wf(),
    ensures
        bearer is None ==> r == Err::<AuthenticatedUser, AppErrorKind>(AppErrorKind::NotAuthorized),
        bearer matches Some(t) ==> gate_view(r) == gate_verdict(users@, claims_verdict(jwt_opened(t@, crypto.jwt_secret@), now as int)),
{
    let token = match bearer {
        Some(t) => t,
        None => {
            return Err(AppErrorKind::NotAuthorized);
        },
    };
    let sub = match crypto.check_jwt(token, now) {
        Ok(s) => s,
        Err(_) => {
            return Err(AppErrorKind::NotAuthorized);
        },
    };
    let id = match parse_id(sub.as_str()) {
        Some(id) => id,
        None => {
            return Err(AppErrorKind::NotAuthorized);
        },
    };
    match users.find_by_id(id) {
        Some(_) => Ok(AuthenticatedUser(id)),
        None => Err(AppErrorKind::NotAuthorized),
    }
}

/// The reply to a successful login: a bearer token and the provider's
/// authorization URL.
#[derive(Debug, Clone)]
pub struct Auth {
    pub token: String,
    pub url: String,
}

/// Whether a login with these credentials passes the password check.
pub open spec fn credentials_ok(users: Seq<User>, username: Seq<char>, password: Option<Seq<char>>, key: Seq<char>) -> bool {
    &&& password is Some
    &&& has_username(users, username)
    &&& argon2_accepts(user_named(users, username).password_hash@, password.unwrap(), key)
}

pub open spec fn opt_str_view(o: Option<&str>) -> Option<Seq<char>> {
    match o {
        Some(s) => Some(s@),
        None => None,
    }
}

/// Checks Basic credentials at time `now` (seconds) and, when they hold,
/// issues a bearer token for the user together with the authorization URL.
pub fn auth(
    users: &UserRepository,
    hashing: &CryptoService,
    params: &Params,
    username: &str,
    password: Option<&str>,
    now: i64,
) -> (r: Result<Auth, AppErrorKind>)
    requires
        users.wf(),
        now <= i64::MAX - TOKEN_TTL_SECS,
    ensures
        !credentials_ok(users@, username@, opt_str_view(password), hashing.key@) ==> r == Err::<Auth, AppErrorKind>(AppErrorKind::InvalidCredentials),
        credentials_ok(users@, username@, opt_str_view(password), hashing.key@) ==> {
            let signed = jwt_signed(uuid_text(user_named(users@, username@).id), now as int, now + TOKEN_TTL_SECS, hashing.jwt_secret@);
            &&& signed is Some
            &&& (r matches Ok(a) && signed == Some(a.token@)
                && a.url@ == authorization_url(params.auth_uri@, params.client_id@, params.redirect_uri@))
        },
{
    let password = match password {
        Some(p) => p,
        None => {
            return Err(AppErrorKind::InvalidCredentials);
        },
    };
    let user = match users.find_by_username(username) {
        Some(u) => u,
        None => {
            return Err(AppErrorKind::InvalidCredentials);
        },
    };
    proof {
        let k = choose|k: int| 0 <= k < users@.len() && users@[k] == user;
        lemma_named_unique(users@, k, username@);
    }
    if !hashing.check_password(password, user.password_hash.as_str()) {
        return Err(AppErrorKind::InvalidCredentials);
    }
    match hashing.generate_jwt(user.id, now) {
        Some(token) => {
            let url = encoded_url(params);
            Ok(Auth { token, url })
        },
        None => Err(AppErrorKind::InternalError),
    }
}

/// Bearer tokens expire: one signed at `iat` for an existing user resolves to
/// that user up to its expiry and is refused strictly after it, and one whose
/// signature fails under the service secret is always refused.
pub proof fn lemma_issued_token_gate(users: Seq<User>, id: u128, opened: Result<(Seq<char>, int), TokenError>, iat: int, now: int)
    requires
        has_id(users, id),
        opened == Ok::<(Seq<char>, int), TokenError>((uuid_text(id), iat + TOKEN_TTL_SECS)),
        uuid_parsed(uuid_text(id)) == Some(id),
    ensures
        now <= iat + TOKEN_TTL_SECS ==> gate_verdict(users, claims_verdict(opened, now)) == Ok::<u128, AppErrorKind>(id),
        now > iat + TOKEN_TTL_SECS ==> gate_verdict(users, claims_verdict(opened, now)) == Err::<u128, AppErrorKind>(AppErrorKind::NotAuthorized),
        gate_verdict(users, claims_verdict(Err(TokenError::InvalidSignature), now)) == Err::<u128, AppErrorKind>(AppErrorKind::NotAuthorized),
{
}

/// A stored user whose hash accepts a password passes the credential check
/// with that password.
pub proof fn lemma_stored_user_logs_in(users: Seq<User>, k: int, password: Seq<char>, key: Seq<char>)
    requires
        unique_keys(users),
        0 <= k < users.len(),
        argon2_accepts(users[k].password_hash@, password, key),
    ensures
        credentials_ok(users, users[k].username@, Some(password), key),
{
    lemma_named_unique(users, k, users[k].username@);
}

/// The caller's own record.
pub fn me(user: AuthenticatedUser, repository: &UserRepository) -> (r: Result<User, AppErrorKind>)
    requires
        repository.wf(),
    ensures
        !has_id(repository@, user.0) ==> r == Err::<User, AppErrorKind>(AppErrorKind::InternalError),
        has_id(repository@, user.0) ==> r == Ok::<User, AppErrorKind>(user_with_id(repository@, user.0)),
{
    match repository.find_by_id(user.0) {
        Some(u) => {
            proof {
                let k = choose|k: int| 0 <= k < repository@.len() && repository@[k] == u;
                lemma_id_unique(repository@, k, user.0);
            }
            Ok(u)
        },
        None => Err(AppErrorKind::InternalError),
    }
}

} // verus!
