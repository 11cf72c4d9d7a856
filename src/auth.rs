use vstd::prelude::*;
use vstd::string::StringSliceAdditionalSpecFns;
use argon2::{PasswordHasher, PasswordVerifier};

verus! {

/// The PHC string that Argon2, with its default parameters, makes of the
/// password's bytes and the B64-encoded salt; `None` when the salt is not
/// valid B64 of an accepted length or hashing fails.
pub uninterp spec fn argon2_phc(password: Seq<u8>, salt: Seq<char>) -> Option<Seq<char>>;

/// Relies on password_hash::Salt::from_b64 to read the salt, on argon2's
/// PasswordHasher::hash_password with Argon2::default() to hash, and on the
/// Display of PasswordHash to write the PHC string; all depend on their
/// arguments alone.
#[verifier::external_body]
fn argon2_hash(password: &str, salt: &str) -> (r: Option<String>)
    ensures
        match r {
            Some(h) => argon2_phc(password.spec_bytes(), salt@) == Some(h@),
            None => argon2_phc(password.spec_bytes(), salt@) is None,
        },
{
    match password_hash::Salt::from_b64(salt) {
        Ok(s) => match argon2::Argon2::default().hash_password(password.as_bytes(), s) {
            Ok(h) => Some(h.to_string()),
            Err(_) => None,
        },
        Err(_) => None,
    }
}

/// What checking the password's bytes against a stored PHC string gives:
/// `None` when the string cannot be parsed, else whether Argon2, with the
/// parameters and salt the string holds, reproduces its hash.
pub uninterp spec fn argon2_verdict(password: Seq<u8>, phc: Seq<char>) -> Option<bool>;

/// Relies on password_hash::PasswordHash::new to parse the stored string and
/// on PasswordVerifier::verify_password of Argon2::default() to check the
/// password against it; both depend on their arguments alone.
#[verifier::external_body]
fn argon2_verify(password: &str, phc: &str) -> (r: Option<bool>)
    ensures
        r == argon2_verdict(password.spec_bytes(), phc@),
{
    match password_hash::PasswordHash::new(phc) {
        Ok(h) => Some(argon2::Argon2::default().verify_password(password.as_bytes(), &h).is_ok()),
        Err(_) => None,
    }
}

/// The record stored for a password: its Argon2 PHC string with the given salt.
pub fn password_record(password: &str, salt: &str) -> (r: Option<String>)
    ensures
        match r {
            Some(h) => argon2_phc(password.spec_bytes(), salt@) == Some(h@),
            None => argon2_phc(password.spec_bytes(), salt@) is None,
        },
{
    argon2_hash(password, salt)
}

/// Why a login is refused.
#[derive(Clone, Copy, Debug, PartialEq, Eq, Structural)]
pub enum LoginError {
    /// No user has the given e-mail.
    UnknownUser,
    /// The stored password record cannot be read.
    BadRecord,
    /// The password does not match the stored record.
    WrongPassword,
}

impl LoginError {
    pub open spec fn text(self) -> Seq<char> {
        match self {
            LoginError::UnknownUser => "Не е намерен потребител"@,
            LoginError::BadRecord => "Invalid password hash format"@,
            LoginError::WrongPassword => "Невалидна парола"@,
        }
    }

    /// The message shown to the user for this error.
    pub fn message(&self) -> (r: String)
        ensures
            r@ == self.text(),
    {
        match self {
            LoginError::UnknownUser => String::from_str("Не е намерен потребител"),
            LoginError::BadRecord => String::from_str("Invalid password hash format"),
            LoginError::WrongPassword => String::from_str("Невалидна парола"),
        }
    }
}

/// What a login makes of the verdict on the password: an unreadable record
/// and a mismatch are refused, a match is accepted.
pub open spec fn password_rule(verdict: Option<bool>) -> Result<(), LoginError> {
    match verdict {
        None => Err(LoginError::BadRecord),
        Some(false) => Err(LoginError::WrongPassword),
        Some(true) => Ok(()),
    }
}

pub open spec fn password_verdict(password: Seq<u8>, phc: Seq<char>) -> Result<(), LoginError> {
    password_rule(argon2_verdict(password, phc))
}

/// Applies the login rule to the verdict on a password.
pub fn password_outcome(verdict: Option<bool>) -> (r: Result<(), LoginError>)
    ensures
        r == password_rule(verdict),
{
    match verdict {
        None => Err(LoginError::BadRecord),
        Some(false) => Err(LoginError::WrongPassword),
        Some(true) => Ok(()),
    }
}

/// Checks a password against the record stored for it.
pub fn check_password(password: &str, phc: &str) -> (r: Result<(), LoginError>)
    ensures
        r == password_verdict(password.spec_bytes(), phc@),
{
    password_outcome(argon2_verify(password, phc))
}

} // verus!
