use crate::config::CryptoService;
use argon2::password_hash::{PasswordHash, PasswordHasher, PasswordVerifier, SaltString};
use argon2::{Algorithm, Argon2, Params, Version};
use vstd::prelude::*;

verus! {

/// The PHC string that Argon2id, with default cost parameters and keyed with
/// `secret`, makes of `password` under `salt`.
pub uninterp spec fn argon2_phc(password: Seq<char>, salt: Seq<u8>, secret: Seq<char>) -> Option<Seq<char>>;

/// Whether the PHC string `stored` is a hash of `password` keyed with `secret`.
pub uninterp spec fn argon2_accepts(stored: Seq<char>, password: Seq<char>, secret: Seq<char>) -> bool;

/// Relies on argon2::Argon2::new_with_secret and PasswordHasher::hash_password:
/// deterministic once the salt is given; it fails only for a password or a
/// secret over u32::MAX bytes (at most four per character); and
/// PasswordVerifier::verify_password, which recomputes with the PHC string's
/// own parameters and salt, accepts the result for the same password and secret.
#[verifier::external_body]
fn argon2_hash(password: &str, salt: &[u8; 16], secret: &str) -> (r: Option<String>)
    ensures
        r matches Some(h) ==> argon2_phc(password@, salt@, secret@) == Some(h@),
        r is None ==> argon2_phc(password@, salt@, secret@) is None,
        r is None ==> !(4 * password@.len() <= u32::MAX && 4 * secret@.len() <= u32::MAX),
        r matches Some(h) ==> argon2_accepts(h@, password@, secret@),
{
    let salt = SaltString::encode_b64(salt).ok()?;
    let hasher = Argon2::new_with_secret(
        secret.as_bytes(), Algorithm::default(), Version::default(), Params::default()).ok()?;
    hasher.hash_password(password.as_bytes(), &salt).ok().map(|h| h.to_string())
}

/// Relies on argon2::password_hash::PasswordHash::new and
/// PasswordVerifier::verify_password: a malformed hash or a mismatch is `false`.
#[verifier::external_body]
fn argon2_verify(stored: &str, password: &str, secret: &str) -> (r: bool)
    ensures
        r == argon2_accepts(stored@, password@, secret@),
{
    let hasher = Argon2::new_with_secret(
        secret.as_bytes(), Algorithm::default(), Version::default(), Params::default());
    match (PasswordHash::new(stored), hasher) {
        (Ok(parsed), Ok(h)) => h.verify_password(password.as_bytes(), &parsed).is_ok(),
        _ => false,
    }
}

impl CryptoService {
    /// Hashes a password under a fresh salt chosen by the caller.
    pub fn hash_password(&self, password: &str, salt: &[u8; 16]) -> (r: Option<String>)
        ensures
            r matches Some(h) ==> argon2_phc(password@, salt@, self.key@) == Some(h@),
            r is None ==> argon2_phc(password@, salt@, self.key@) is None,
            4 * password@.len() <= u32::MAX && 4 * self.key@.len() <= u32::MAX ==> r is Some,
            r matches Some(h) ==> argon2_accepts(h@, password@, self.key@),
    {
        argon2_hash(password, salt, self.key.as_str())
    }

    /// Checks a password against a stored hash; any mismatch is `false`.
    pub fn check_password(&self, password: &str, stored: &str) -> (r: bool)
        ensures
            r == argon2_accepts(stored@, password@, self.key@),
    {
        argon2_verify(stored, password, self.key.as_str())
    }
}

} // verus!
