//! Password hashing and session tokens, over the scrypt and base64 crates.
//!
//! The cryptography itself is consumed as an opaque service: hashing embeds
//! a random salt, so nothing is assumed of a hash's value, and verification
//! is named by the uninterpreted [`scrypt_verifies`] — a deterministic
//! function of the password and the hash alone. The decisions around the
//! calls — the timing-equalizing dummy hash for unknown users, the mapping
//! to errors, the expiry check — are verified.

use scrypt::password_hash::rand_core::OsRng;
use scrypt::password_hash::{PasswordHash, PasswordHasher, PasswordVerifier, Salt, SaltString};
use scrypt::Scrypt;
use vstd::prelude::*;

verus! {

/// Why an authentication step failed.
#[derive(Clone, Copy, Debug)]
pub enum AuthError {
    /// The username is unknown or the password does not match; the two are
    /// indistinguishable to the caller, to prevent user enumeration.
    InvalidCredentials,
    /// The session token has passed its lifetime.
    SessionExpired,
    /// Hashing itself failed.
    HashingFailed,
}

/// Whether scrypt accepts this password against this stored hash string: a
/// deterministic function of the two, including the rejection of a
/// malformed hash string.
pub uninterp spec fn scrypt_verifies(password: Seq<char>, hash: Seq<char>) -> bool;

/// Relies on scrypt's `hash_password_customized` with a salt drawn from the
/// operating system. The hash embeds the random salt, so nothing is assumed
/// of the returned string's value beyond the round trip: verification
/// re-derives the hash from the password and the salt and parameters
/// embedded in the hash string, so a hash this call produces verifies the
/// password it was made from.
#[verifier::external_body]
pub fn hash_password(password: &str) -> (r: Result<String, AuthError>)
    ensures
        r is Ok ==> scrypt_verifies(password@, r.unwrap()@),
{
    let salt = SaltString::generate(&mut OsRng);
    let params = scrypt::Params::new(15, 2, 2, scrypt::Params::RECOMMENDED_LEN).unwrap();
    let salt_ref = match Salt::try_from(salt.as_ref()) {
        Ok(s) => s,
        Err(_) => return Err(AuthError::HashingFailed),
    };
    match Scrypt.hash_password_customized(password.as_bytes(), None, None, params, salt_ref) {
        Ok(hash) => Ok(hash.to_string()),
        Err(_) => Err(AuthError::HashingFailed),
    }
}

/// Relies on scrypt's `verify_password` (and `PasswordHash` parsing): both
/// depend on the password and the hash string alone, so their combined
/// verdict is `scrypt_verifies`.
#[verifier::external_body]
pub fn verify_password_with_hash(password: &str, hash: &str) -> (ok: bool)
    ensures
        ok == scrypt_verifies(password@, hash@),
{
    match PasswordHash::new(hash) {
        Ok(parsed) => Scrypt.verify_password(password.as_bytes(), &parsed).is_ok(),
        Err(_) => false,
    }
}

/// Check a login attempt against what the user store returned for the
/// username: the user's id and stored hash, or nothing for an unknown name.
/// An unknown name still pays for one hash, so that the call takes the same
/// time whether or not the user exists, and both failures look the same.
pub fn verify_password(lookup: Option<(i32, String)>, password: &String) -> (r: Result<
    i32,
    AuthError,
>)
    ensures
        (match lookup {
            None => r == Err::<i32, AuthError>(AuthError::InvalidCredentials),
            Some((user_id, hash)) => (if scrypt_verifies(password@, hash@) {
                r == Ok::<i32, AuthError>(user_id)
            } else {
                r == Err::<i32, AuthError>(AuthError::InvalidCredentials)
            }),
        }),
{
    match lookup {
        None => {
            let _ = hash_password(password.as_str());
            Err(AuthError::InvalidCredentials)
        },
        Some((user_id, hash)) => {
            if verify_password_with_hash(password.as_str(), hash.as_str()) {
                Ok(user_id)
            } else {
                Err(AuthError::InvalidCredentials)
            }
        },
    }
}

/// Validate what the session store returned for a token: the logged-in
/// user's id and the session's creation time, or nothing for an unknown
/// token. A session older than its lifetime is refused; an unknown token is
/// not an error, just no user. Times are milliseconds on one clock.
pub fn validate_session_token(
    lookup: Option<(i32, i64)>,
    now_ms: i64,
    lifetime_ms: i64,
) -> (r: Result<Option<i32>, AuthError>)
    requires
        lifetime_ms >= 0,
        (match lookup {
            Some((user_id, created_at_ms)) => created_at_ms + lifetime_ms <= i64::MAX,
            None => true,
        }),
    ensures
        (match lookup {
            None => r == Ok::<Option<i32>, AuthError>(None::<i32>),
            Some((user_id, created_at_ms)) => (if now_ms > created_at_ms + lifetime_ms {
                r == Err::<Option<i32>, AuthError>(AuthError::SessionExpired)
            } else {
                r == Ok::<Option<i32>, AuthError>(Some(user_id))
            }),
        }),
{
    match lookup {
        None => Ok(None),
        Some((user_id, created_at_ms)) => {
            if now_ms > created_at_ms + lifetime_ms {
                Err(AuthError::SessionExpired)
            } else {
                Ok(Some(user_id))
            }
        },
    }
}

/// What base64's standard alphabet, with padding, encodes these bytes to.
pub uninterp spec fn base64_of(bytes: Seq<u8>) -> Seq<char>;

/// Relies on `rand::rngs::OsRng::fill_bytes`: 64 bytes from the operating
/// system's randomness; nothing is assumed of their values.
#[verifier::external_body]
fn random_token_bytes() -> (bytes: Vec<u8>)
    ensures
        bytes@.len() == 64,
{
    let mut buf = [0u8; 64];
    rand::RngCore::fill_bytes(&mut rand::rngs::OsRng, &mut buf);
    buf.to_vec()
}

/// Relies on base64's standard engine `encode`: the result is a function of
/// the bytes alone, four characters for every three bytes, padded.
#[verifier::external_body]
fn base64_encode(bytes: &Vec<u8>) -> (encoded: String)
    ensures
        encoded@ == base64_of(bytes@),
        encoded@.len() == 4 * ((bytes@.len() + 2) / 3),
{
    base64::Engine::encode(&base64::engine::general_purpose::STANDARD, bytes)
}

/// A fresh opaque session token: 64 random bytes, base64-encoded to 88
/// characters.
pub fn generate_session_token() -> (token: String)
    ensures
        token@.len() == 88,
{
    let bytes = random_token_bytes();
    base64_encode(&bytes)
}

} // verus!
