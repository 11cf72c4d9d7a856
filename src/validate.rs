use vstd::prelude::*;

verus! {

/// What the regular expression `pattern` says of `text`: `Some(m)` when the
/// pattern compiles, `m` telling whether it matches; `None` when it does not compile.
pub uninterp spec fn regex_verdict(pattern: Seq<char>, text: Seq<char>) -> Option<bool>;

/// Relies on regex::Regex::new to compile `pattern` and on Regex::is_match to
/// test it against `text`; both depend on their arguments alone.
#[verifier::external_body]
fn regex_is_match(pattern: &str, text: &str) -> (r: Option<bool>)
    ensures
        r == regex_verdict(pattern@, text@),
{
    match regex::Regex::new(pattern) {
        Ok(re) => Some(re.is_match(text)),
        Err(_) => None,
    }
}

/// A due date: four, two and two digits separated by dashes.
pub const DATE_PATTERN: &'static str = r"^\d{4}-\d{2}-\d{2}$";

/// An e-mail address: word characters, dots and dashes on both sides of one
/// `@`, and a final dot followed by word characters.
pub const EMAIL_PATTERN: &'static str = r"^[\w.-]+@[\w.-]+\.\w+$";

/// Passwords shorter than this many bytes are refused.
pub const MIN_PASSWORD_LEN: usize = 8;

pub open spec fn matches_pattern(pattern: Seq<char>, text: Seq<char>) -> bool {
    regex_verdict(pattern, text) == Some(true)
}

/// A due date is accepted when it is empty (no due date) or has the date shape.
pub open spec fn due_date_accepted(due: Seq<char>) -> bool {
    due.len() == 0 || matches_pattern(DATE_PATTERN@, due)
}

/// Tells whether `due` is empty or of the shape `YYYY-MM-DD`.
pub fn is_valid_due_date(due: &str) -> (r: bool)
    ensures
        r == due_date_accepted(due@),
{
    if due.is_empty() {
        return true;
    }
    match regex_is_match(DATE_PATTERN, due) {
        Some(m) => m,
        None => false,
    }
}

/// Tells whether `email` has the shape of an e-mail address.
pub fn is_valid_email(email: &str) -> (r: bool)
    ensures
        r == matches_pattern(EMAIL_PATTERN@, email@),
{
    match regex_is_match(EMAIL_PATTERN, email) {
        Some(m) => m,
        None => false,
    }
}

/// Why a registration is refused.
#[derive(Clone, Copy, Debug, PartialEq, Eq, Structural)]
pub enum RegistrationError {
    InvalidEmail,
    ShortPassword,
    EmailTaken,
    UsernameTaken,
    /// The password could not be hashed with the given salt.
    HashingFailed,
}

impl RegistrationError {
    pub open spec fn text(self) -> Seq<char> {
        match self {
            RegistrationError::InvalidEmail => "Невалиден имейл."@,
            RegistrationError::ShortPassword => "Паролата трябва да е поне 8 символа."@,
            RegistrationError::EmailTaken => "Вече има регистриран потребител с този имейл."@,
            RegistrationError::UsernameTaken => "Вече има регистриран потребител с това потребителско име."@,
            RegistrationError::HashingFailed => "Проблем при хеширането на паролата."@,
        }
    }

    /// The message shown to the user for this error.
    pub fn message(&self) -> (r: String)
        ensures
            r@ == self.text(),
    {
        match self {
            RegistrationError::InvalidEmail => String::from_str("Невалиден имейл."),
            RegistrationError::ShortPassword => String::from_str("Паролата трябва да е поне 8 символа."),
            RegistrationError::EmailTaken => String::from_str("Вече има регистриран потребител с този имейл."),
            RegistrationError::UsernameTaken => String::from_str("Вече има регистриран потребител с това потребителско име."),
            RegistrationError::HashingFailed => String::from_str("Проблем при хеширането на паролата."),
        }
    }
}

/// The registration rule, given whether the e-mail has the right shape: the
/// e-mail's shape, then the password's length in bytes, then whether the
/// e-mail and the user name are already in use.
pub open spec fn registration_rule(email_ok: bool, password_bytes: nat, email_taken: bool, username_taken: bool) -> Result<(), RegistrationError> {
    if !email_ok {
        Err(RegistrationError::InvalidEmail)
    } else if password_bytes < MIN_PASSWORD_LEN {
        Err(RegistrationError::ShortPassword)
    } else if email_taken {
        Err(RegistrationError::EmailTaken)
    } else if username_taken {
        Err(RegistrationError::UsernameTaken)
    } else {
        Ok(())
    }
}

pub open spec fn registration_verdict(email: Seq<char>, password_bytes: nat, email_taken: bool, username_taken: bool) -> Result<(), RegistrationError> {
    registration_rule(matches_pattern(EMAIL_PATTERN@, email), password_bytes, email_taken, username_taken)
}

/// Applies the registration rule to what is known of a registration.
pub fn registration_outcome(email_ok: bool, password_bytes: usize, email_taken: bool, username_taken: bool) -> (r: Result<(), RegistrationError>)
    ensures
        r == registration_rule(email_ok, password_bytes as nat, email_taken, username_taken),
{
    if !email_ok {
        Err(RegistrationError::InvalidEmail)
    } else if password_bytes < MIN_PASSWORD_LEN {
        Err(RegistrationError::ShortPassword)
    } else if email_taken {
        Err(RegistrationError::EmailTaken)
    } else if username_taken {
        Err(RegistrationError::UsernameTaken)
    } else {
        Ok(())
    }
}

/// Decides whether a registration may go ahead, checking in turn the e-mail's
/// shape, the password's length in bytes, and whether the e-mail and the user
/// name are already in use.
pub fn check_registration(email: &str, password: &str, email_taken: bool, username_taken: bool) -> (r: Result<(), RegistrationError>)
    ensures
        r == registration_verdict(email@, password.len() as nat, email_taken, username_taken),
{
    registration_outcome(is_valid_email(email), password.len(), email_taken, username_taken)
}

} // verus!
