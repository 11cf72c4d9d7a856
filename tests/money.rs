use split_money_manager::date::text_less;
use split_money_manager::money::{decimal_text, format_amount, split_share};
use split_money_manager::settlement::{punctuality, record_settlement, Loyalty, Punctuality};
use split_money_manager::validate::{check_registration, is_valid_due_date, is_valid_email, RegistrationError};

#[test]
fn amounts_have_two_decimals() {
    assert_eq!(format_amount(10000), "100.00");
    assert_eq!(format_amount(5), "0.05");
    assert_eq!(format_amount(1234567), "12345.67");
    assert_eq!(format_amount(0), "0.00");
    assert_eq!(decimal_text(u64::MAX), u64::MAX.to_string());
}

#[test]
fn shares_split_evenly() {
    assert_eq!(split_share(30000, 3), 10000);
    assert_eq!(split_share(10000, 3), 3333);
    assert_eq!(split_share(2, 3), 0);
    for (amount, n) in [(1u64, 1u64), (99, 4), (100001, 7), (u64::MAX, 3)] {
        let s = split_share(amount, n);
        assert!(s * n <= amount && amount - s * n < n);
    }
}

#[test]
fn dates_compare_as_text() {
    assert!(text_less("2025-12-31", "2026-01-01"));
    assert!(!text_less("2026-01-01", "2026-01-01"));
    assert!(text_less("", "2026-01-01"));
    assert!(!text_less("2026-01-02", "2026-01-01"));
    assert_eq!(punctuality("2026-01-01", "2026-01-01"), Punctuality::OnTime);
    assert_eq!(punctuality("2025-01-01", "2026-01-01"), Punctuality::Late);
    assert_eq!(punctuality("", "2026-01-01"), Punctuality::NoDueDate);
}

#[test]
fn loyalty_counts_on_time_settlements() {
    let l = record_settlement(Loyalty { on_time_payments: 19, loyal_payer: false }, Punctuality::OnTime);
    assert_eq!(l, Loyalty { on_time_payments: 20, loyal_payer: true });
    let l = record_settlement(Loyalty { on_time_payments: 18, loyal_payer: false }, Punctuality::OnTime);
    assert_eq!(l, Loyalty { on_time_payments: 19, loyal_payer: false });
    let l = record_settlement(Loyalty { on_time_payments: 30, loyal_payer: true }, Punctuality::Late);
    assert_eq!(l, Loyalty { on_time_payments: 30, loyal_payer: false });
    let l = record_settlement(Loyalty { on_time_payments: u64::MAX, loyal_payer: true }, Punctuality::OnTime);
    assert_eq!(l.on_time_payments, u64::MAX);
}

#[test]
fn due_dates_and_emails_follow_their_patterns() {
    assert!(is_valid_due_date(""));
    assert!(is_valid_due_date("2026-01-01"));
    assert!(!is_valid_due_date("2026-1-1"));
    assert!(!is_valid_due_date("2026-01-01x"));
    assert!(is_valid_email("ivan@example.com"));
    assert!(is_valid_email("i.van-1@mail.example.bg"));
    assert!(!is_valid_email("username"));
    assert!(!is_valid_email("a@b"));
}

#[test]
fn registration_checks_come_in_order() {
    assert_eq!(check_registration("username", "12345678", false, false), Err(RegistrationError::InvalidEmail));
    assert_eq!(check_registration("username@example.com", "1234567", true, true), Err(RegistrationError::ShortPassword));
    assert_eq!(check_registration("ivan@example.com", "12345678", true, false), Err(RegistrationError::EmailTaken));
    assert_eq!(check_registration("username@example.com", "12345678", false, true), Err(RegistrationError::UsernameTaken));
    assert_eq!(check_registration("username@example.com", "12345678", false, false), Ok(()));
    assert_eq!(RegistrationError::ShortPassword.message(), "Паролата трябва да е поне 8 символа.");
}
