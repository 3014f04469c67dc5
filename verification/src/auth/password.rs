//! Password hashing with Argon2id.
//!
//! Passwords are hashed with Argon2id (the crate's default parameters) and
//! a random salt; the hash is kept as a PHC string (`$argon2id$v=19$...`).
//! A hashed password has no `Debug` form, so it cannot be printed by
//! accident.

use vstd::prelude::*;
use argon2::password_hash::rand_core::OsRng;
use argon2::password_hash::{PasswordHash, PasswordHasher, PasswordVerifier, SaltString};
use argon2::Argon2;

verus! {

/// Whether `password_hash::PasswordHash::new` accepts a text as a PHC
/// string.
pub uninterp spec fn phc_parses(phc: Seq<char>) -> bool;

/// Whether Argon2 (`Argon2::default().verify_password`) accepts a password
/// for a PHC string that parses.
pub uninterp spec fn argon2_accepts(password: Seq<char>, phc: Seq<char>) -> bool;

/// Parse a PHC string (`password_hash::PasswordHash::new`); the error is
/// the crate's message.
#[verifier::external_body]
fn parse_phc(phc: &str) -> (r: Result<(), String>)
    ensures
        r is Ok == phc_parses(phc@),
{
    PasswordHash::new(phc).map(|_| ()).map_err(|e| e.to_string())
}

/// Check a password against a PHC string that parses
/// (`Argon2::default().verify_password`, constant time).
#[verifier::external_body]
fn argon2_verify(password: &str, phc: &str) -> (ok: bool)
    requires
        phc_parses(phc@),
    ensures
        ok == argon2_accepts(password@, phc@),
{
    match PasswordHash::new(phc) {
        Ok(parsed) => Argon2::default().verify_password(password.as_bytes(), &parsed).is_ok(),
        Err(_) => false,
    }
}

/// The longest password Argon2 hashes, in UTF-8 bytes (`argon2::MAX_PWD_LEN`).
pub const MAX_PASSWORD_BYTES: u64 = 0xFFFF_FFFF;

/// Whether Argon2 takes a password: its UTF-8 form is at most
/// `MAX_PASSWORD_BYTES` long.
pub open spec fn password_fits(password: Seq<char>) -> bool {
    vstd::utf8::encode_utf8(password).len() <= MAX_PASSWORD_BYTES
}

/// Hash a password with a random salt (`SaltString::generate` with
/// `OsRng`, `Argon2::default().hash_password`, in PHC form). The salt is
/// random; what holds of every outcome is stated: hashing succeeds exactly
/// when the password is not longer than `argon2::MAX_PWD_LEN` bytes (the
/// default parameters and a generated salt pass every other check), and the
/// PHC string parses and Argon2 accepts the password for it.
#[verifier::external_body]
fn argon2_hash(password: &str) -> (r: Result<String, String>)
    ensures
        r is Ok == password_fits(password@),
        r matches Ok(h) ==> phc_parses(h@) && argon2_accepts(password@, h@),
{
    let salt = SaltString::generate(&mut OsRng);
    Argon2::default().hash_password(password.as_bytes(), &salt).map(|h| h.to_string()).map_err(|e| e.to_string())
}

/// Error of a password operation.
#[derive(Debug)]
pub enum PasswordError {
    /// Hashing failed (a misconfiguration).
    HashFailed(String),
    /// The password does not match.
    VerifyFailed,
    /// The hash is not a PHC string.
    InvalidHash(String),
}

/// A hashed password: a PHC string.
pub struct HashedPassword(String);

impl HashedPassword {
    /// The PHC string.
    pub closed spec fn phc(&self) -> Seq<char> {
        self.0@
    }

    /// The PHC string.
    pub fn as_str(&self) -> (s: &str)
        ensures
            s@ == self.phc(),
    {
        self.0.as_str()
    }

    /// A hashed password from a PHC string, if it is one.
    pub fn from_str(phc: &str) -> (r: Result<HashedPassword, PasswordError>)
        ensures
            match r {
                Ok(h) => phc_parses(phc@) && h.phc() == phc@,
                Err(PasswordError::InvalidHash(_)) => !phc_parses(phc@),
                Err(_) => false,
            },
    {
        match parse_phc(phc) {
            Ok(()) => Ok(HashedPassword(phc.to_owned())),
            Err(m) => Err(PasswordError::InvalidHash(m)),
        }
    }

    /// An independent copy.
    pub fn duplicate(&self) -> (h: HashedPassword)
        ensures
            h.phc() == self.phc(),
    {
        HashedPassword(self.0.clone())
    }
}

/// Hash a password with Argon2id and a random salt. The hash verifies the
/// password; hashing fails only for a password longer than Argon2 takes.
pub fn hash_password(password: &str) -> (r: Result<HashedPassword, PasswordError>)
    ensures
        r is Ok == password_fits(password@),
        match r {
            Ok(h) => phc_parses(h.phc()) && argon2_accepts(password@, h.phc()),
            Err(e) => e is HashFailed,
        },
{
    match argon2_hash(password) {
        Ok(h) => Ok(HashedPassword(h)),
        Err(m) => Err(PasswordError::HashFailed(m)),
    }
}

/// Check a password against a stored hash, in constant time.
pub fn verify_password(password: &str, stored: &HashedPassword) -> (r: Result<(), PasswordError>)
    ensures
        match r {
            Ok(()) => phc_parses(stored.phc()) && argon2_accepts(password@, stored.phc()),
            Err(PasswordError::InvalidHash(_)) => !phc_parses(stored.phc()),
            Err(PasswordError::VerifyFailed) => phc_parses(stored.phc()) && !argon2_accepts(password@, stored.phc()),
            Err(_) => false,
        },
{
    match parse_phc(stored.as_str()) {
        Ok(()) => {
            if argon2_verify(password, stored.as_str()) {
                Ok(())
            } else {
                Err(PasswordError::VerifyFailed)
            }
        },
        Err(m) => Err(PasswordError::InvalidHash(m)),
    }
}

} // verus!
