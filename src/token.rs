use crate::config::CryptoService;
use crate::ids::{id_text, uuid_parsed, uuid_text};
use jsonwebtoken::errors::ErrorKind;
use jsonwebtoken::{decode, encode, DecodingKey, EncodingKey, Header, Validation};
use vstd::prelude::*;
use vstd::string::*;

verus! {

/// How long a bearer token stays valid after it is issued, in seconds.
pub const TOKEN_TTL_SECS: i64 = 3600;

/// Why a bearer token is refused.
#[derive(Debug, Clone, Copy, PartialEq, Eq, Structural)]
pub enum TokenError {
    InvalidSignature,
    Expired,
    Malformed,
}

/// The HS256 token that jsonwebtoken signs with `secret` over the claims
/// `sub`, `iat` and `exp`.
pub uninterp spec fn jwt_signed(sub: Seq<char>, iat: int, exp: int, secret: Seq<char>) -> Option<Seq<char>>;

/// What reading `token` with `secret` gives before its expiry is looked at:
/// the subject and expiry, or why it could not be read.
pub uninterp spec fn jwt_opened(token: Seq<char>, secret: Seq<char>) -> Result<(Seq<char>, int), TokenError>;

pub open spec fn opened_view(o: Result<(String, i64), TokenError>) -> Result<(Seq<char>, int), TokenError> {
    match o {
        Ok((s, e)) => Ok((s@, e as int)),
        Err(k) => Err(k),
    }
}

/// Relies on jsonwebtoken::encode with the default HS256 header, which cannot
/// fail for an HMAC key and a map of three plain values; and on
/// jsonwebtoken::decode as `open_claims` calls it, which reads such a token
/// back under the same secret when `exp` is not negative (it parses `exp` as u64).
#[verifier::external_body]
fn sign_claims(sub: &str, iat: i64, exp: i64, secret: &str) -> (r: Option<String>)
    ensures
        r matches Some(t) ==> jwt_signed(sub@, iat as int, exp as int, secret@) == Some(t@),
        r is None ==> jwt_signed(sub@, iat as int, exp as int, secret@) is None,
        r is Some,
        r matches Some(t) ==> (exp >= 0 ==> jwt_opened(t@, secret@) == Ok::<(Seq<char>, int), TokenError>((sub@, exp as int))),
{
    let claims: std::collections::BTreeMap<&str, serde_json::Value> =
        [("sub", sub.into()), ("iat", iat.into()), ("exp", exp.into())].into_iter().collect();
    encode(&Header::default(), &claims, &EncodingKey::from_secret(secret.as_bytes())).ok()
}

/// Relies on jsonwebtoken::decode with HS256 and its own expiry check turned
/// off: a signature mismatch is reported as such, every other failure as malformed.
#[verifier::external_body]
fn open_claims(token: &str, secret: &str) -> (r: Result<(String, i64), TokenError>)
    ensures
        opened_view(r) == jwt_opened(token@, secret@),
{
    let mut rules = Validation::default();
    rules.validate_exp = false;
    match decode::<serde_json::Value>(token, &DecodingKey::from_secret(secret.as_bytes()), &rules) {
        Ok(d) => match (d.claims["sub"].as_str(), d.claims["exp"].as_i64()) {
            (Some(s), Some(e)) => Ok((s.to_string(), e)),
            _ => Err(TokenError::Malformed),
        },
        Err(e) if *e.kind() == ErrorKind::InvalidSignature => Err(TokenError::InvalidSignature),
        Err(_) => Err(TokenError::Malformed),
    }
}

/// The verdict on a token's claims at time `now` (seconds): its subject while
/// `now` has not passed the expiry, else `Expired`; a read failure is kept.
pub open spec fn claims_verdict(opened: Result<(Seq<char>, int), TokenError>, now: int) -> Result<Seq<char>, TokenError> {
    match opened {
        Ok((sub, exp)) => if now > exp {
            Err(TokenError::Expired)
        } else {
            Ok(sub)
        },
        Err(k) => Err(k),
    }
}

pub open spec fn subject_view(r: Result<String, TokenError>) -> Result<Seq<char>, TokenError> {
    match r {
        Ok(s) => Ok(s@),
        Err(k) => Err(k),
    }
}

pub fn check_claims(opened: Result<(String, i64), TokenError>, now: i64) -> (r: Result<String, TokenError>)
    ensures
        subject_view(r) == claims_verdict(opened_view(opened), now as int),
{
    match opened {
        Ok((sub, exp)) => if now > exp {
            Err(TokenError::Expired)
        } else {
            Ok(sub)
        },
        Err(k) => Err(k),
    }
}

/// A token issued at `now` for `sub` is accepted while the clock has not
/// passed `now + TOKEN_TTL_SECS`, refused as expired strictly after, and a
/// token whose signature fails is refused as such at every time.
pub proof fn lemma_token_lifetime(sub: Seq<char>, issued: int, now: int)
    ensures
        now <= issued + TOKEN_TTL_SECS ==> claims_verdict(Ok((sub, issued + TOKEN_TTL_SECS)), now) == Ok::<Seq<char>, TokenError>(sub),
        now > issued + TOKEN_TTL_SECS ==> claims_verdict(Ok((sub, issued + TOKEN_TTL_SECS)), now) == Err::<Seq<char>, TokenError>(TokenError::Expired),
        claims_verdict(Err(TokenError::InvalidSignature), now) == Err::<Seq<char>, TokenError>(TokenError::InvalidSignature),
{
}

impl CryptoService {
    /// Issues a bearer token for `user_id` at time `now` (seconds), expiring
    /// `TOKEN_TTL_SECS` later.
    pub fn generate_jwt(&self, user_id: u128, now: i64) -> (r: Option<String>)
        requires
            now <= i64::MAX - TOKEN_TTL_SECS,
        ensures
            r matches Some(t) ==> jwt_signed(uuid_text(user_id), now as int, now + TOKEN_TTL_SECS, self.jwt_secret@) == Some(t@),
            r is Some,
            now + TOKEN_TTL_SECS >= 0 ==> (r matches Some(t) && jwt_opened(t@, self.jwt_secret@)
                == Ok::<(Seq<char>, int), TokenError>((uuid_text(user_id), now + TOKEN_TTL_SECS))),
            uuid_parsed(uuid_text(user_id)) == Some(user_id),
    {
        let sub = id_text(user_id);
        sign_claims(sub.as_str(), now, now + TOKEN_TTL_SECS, self.jwt_secret.as_str())
    }

    /// Verifies a bearer token at time `now` (seconds) and gives its subject.
    pub fn check_jwt(&self, token: &str, now: i64) -> (r: Result<String, TokenError>)
        ensures
            subject_view(r) == claims_verdict(jwt_opened(token@, self.jwt_secret@), now as int),
    {
        let opened = open_claims(token, self.jwt_secret.as_str());
        check_claims(opened, now)
    }
}

} // verus!
