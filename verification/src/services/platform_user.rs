//! Platform-local users: their DID and password hashing.

use vstd::prelude::*;

use argon2::{PasswordHasher, PasswordVerifier};
use argon2::password_hash::Error as PasswordHashError;

use crate::text::concat2;

verus! {

/// The error type of the password-hash crate.
#[verifier::external_type_specification]
#[verifier::external_body]
pub struct ExPasswordHashError(PasswordHashError);

/// A platform-local user with its password hash.
#[derive(Debug, Clone)]
pub struct PlatformUser {
    pub did: String,
    pub handle: String,
    pub password_hash: String,
}

/// Build a deterministic DID for a platform-local user.
pub fn local_did(handle: &str) -> (r: String)
    ensures
        r@ == "did:local:"@ + handle@,
{
    concat2("did:local:", handle)
}

/// Hash a password with argon2 (default parameters, fresh random salt),
/// in PHC string format. The salt is random, so the text itself is not
/// claimed; what is claimed is that the hash accepts the password:
/// verifying recomputes the hash with the parameters and salt the string
/// records.
#[verifier::external_body]
pub fn hash_password(password: &str) -> (r: Result<String, PasswordHashError>)
    ensures
        r matches Ok(h) ==> argon2_accepts(password@, h@) == Some(true),
{
    let salt = argon2::password_hash::SaltString::generate(&mut argon2::password_hash::rand_core::OsRng);
    let hash = argon2::Argon2::default().hash_password(password.as_bytes(), &salt)?;
    Ok(hash.to_string())
}

/// Whether argon2 accepts `password` for the PHC string `hash`; `None` when
/// `hash` does not parse as a PHC string.
pub uninterp spec fn argon2_accepts(password: Seq<char>, hash: Seq<char>) -> Option<bool>;

/// Verify a password against an argon2 hash (`PasswordHash::new`, then
/// `Argon2::default().verify_password`). The outcome depends on the two
/// strings alone.
#[verifier::external_body]
pub fn verify_password(password: &str, hash: &str) -> (r: Result<bool, PasswordHashError>)
    ensures
        match r {
            Ok(b) => argon2_accepts(password@, hash@) == Some(b),
            Err(_) => argon2_accepts(password@, hash@).is_none(),
        },
{
    let parsed = argon2::PasswordHash::new(hash)?;
    Ok(argon2::Argon2::default().verify_password(password.as_bytes(), &parsed).is_ok())
}

} // verus!
