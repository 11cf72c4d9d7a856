use split_money_manager::auth::{check_password, password_outcome, password_record, LoginError};
use split_money_manager::ledger::Ledger;
use split_money_manager::validate::{registration_outcome, RegistrationError};

const IVAN_HASH: &str = "$argon2id$v=19$m=19456,t=2,p=1$X4JSodT9nxYkf0+4x2L9kw$wJ71QeNRhQleHDtWkL8BqrLzrPyARUQ9H11Ax3KCUdU";
const SALT: &str = "c2FsdHNhbHRzYWx0";

fn with_ivan() -> Ledger {
    let mut ledger = Ledger::new();
    ledger.add_account(1, "Ivan", "ivan@example.com", IVAN_HASH, 0, false);
    ledger
}

#[test]
fn registration() {
    let mut ledger = with_ivan();
    let fake_email = ledger.register_user("username", "username", "12345678", SALT).unwrap_err();
    assert_eq!(fake_email.message(), "Невалиден имейл.");

    let fake_password = ledger.register_user("username", "username@example.com", "1234567", SALT).unwrap_err();
    assert_eq!(fake_password.message(), "Паролата трябва да е поне 8 символа.");

    let user_email_exists = ledger.register_user("username", "ivan@example.com", "12345678", SALT).unwrap_err();
    assert_eq!(user_email_exists.message(), "Вече има регистриран потребител с този имейл.");

    let username_exists = ledger.register_user("Ivan", "username@example.com", "12345678", SALT).unwrap_err();
    assert_eq!(username_exists.message(), "Вече има регистриран потребител с това потребителско име.");

    let _ = ledger.register_user("username", "username@example.com", "12345678", SALT);
    let username: Vec<&str> = ledger
        .accounts()
        .iter()
        .filter(|a| a.email == "username@example.com")
        .map(|a| a.username.as_str())
        .collect();
    assert_eq!(username, vec!["username"]);
}

#[test]
fn login() {
    let ledger = with_ivan();
    let user = ledger.login_user("ivan@example.com", "12345678").unwrap();
    assert_eq!(user.username(), "Ivan");
    assert_eq!(user.email(), "ivan@example.com");
    assert_eq!(user.id(), 1);

    let fake_user = ledger.login_user("maria@example.com", "12345678").unwrap_err();
    assert_eq!(fake_user.message(), "Не е намерен потребител");
}

#[test]
fn registered_user_logs_in_with_the_next_id() {
    let mut ledger = with_ivan();
    ledger.register_user("maria", "maria@example.com", "secret-pass", SALT).unwrap();
    let stored = &ledger.accounts()[1];
    assert_eq!(stored.id, 2);
    assert!(stored.password_hash.starts_with("$argon2id$"));
    assert_ne!(stored.password_hash, "secret-pass");
    assert_eq!(ledger.login_user("maria@example.com", "secret-pass").unwrap().id(), 2);
    assert_eq!(ledger.login_user("maria@example.com", "wrong-pass").unwrap_err(), LoginError::WrongPassword);
}

#[test]
fn password_records_depend_on_password_and_salt() {
    let a = password_record("12345678", SALT).unwrap();
    assert_eq!(password_record("12345678", SALT).unwrap(), a);
    assert_ne!(password_record("12345679", SALT).unwrap(), a);
    assert_eq!(check_password("12345678", &a), Ok(()));
    assert_eq!(check_password("12345678", IVAN_HASH), Ok(()));
    assert_eq!(check_password("1234567", IVAN_HASH), Err(LoginError::WrongPassword));
    assert_eq!(check_password("12345678", "not a record"), Err(LoginError::BadRecord));
}

#[test]
fn bad_salt_fails_registration() {
    let mut ledger = with_ivan();
    let err = ledger.register_user("maria", "maria@example.com", "12345678", "!").unwrap_err();
    assert_eq!(err, RegistrationError::HashingFailed);
    assert_eq!(ledger.accounts().len(), 1);
}

#[test]
fn registration_rule_takes_the_shape_verdict() {
    assert_eq!(registration_outcome(false, 20, false, false), Err(RegistrationError::InvalidEmail));
    assert_eq!(registration_outcome(true, 7, false, false), Err(RegistrationError::ShortPassword));
    assert_eq!(registration_outcome(true, 8, true, true), Err(RegistrationError::EmailTaken));
    assert_eq!(registration_outcome(true, 8, false, true), Err(RegistrationError::UsernameTaken));
    assert_eq!(registration_outcome(true, 8, false, false), Ok(()));
}

#[test]
fn login_rule_takes_the_password_verdict() {
    assert_eq!(password_outcome(None), Err(LoginError::BadRecord));
    assert_eq!(password_outcome(Some(false)), Err(LoginError::WrongPassword));
    assert_eq!(password_outcome(Some(true)), Ok(()));
    assert_eq!(LoginError::WrongPassword.message(), "Невалидна парола");
}
