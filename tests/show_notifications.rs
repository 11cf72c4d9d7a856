use split_money_manager::ledger::Ledger;

fn two_users() -> Ledger {
    let mut ledger = Ledger::new();
    ledger.add_account(1, "Ivan", "", "", 0, false);
    ledger.add_account(2, "Maria", "", "", 0, false);
    ledger
}

#[test]
fn get_user_notifications() {
    let mut ledger = two_users();
    ledger.insert_debt(1, 2, 0, 10000, "2025-01-01", "");

    let result1 = ledger.get_user_notifications(1, "2026-01-01").unwrap();
    let result2 = ledger.get_user_notifications(2, "2026-01-01");

    assert_eq!(result1[0].message(), "Имате просрочен дълг от 100.00 лв. със срок 2025-01-01");
    assert_eq!(result2.unwrap_err().message(), "Нямате известия!");

    assert_eq!(ledger.notes()[0].id, 1);
    assert!(ledger.notes()[0].shown);
}

#[test]
fn second_fetch_without_overdue_balances_is_empty() {
    let mut ledger = two_users();
    let id = ledger.insert_debt(1, 2, 0, 1234, "2025-01-01", "");
    let first = ledger.get_user_notifications(1, "2026-01-01").unwrap();
    assert_eq!(first.len(), 1);
    assert_eq!(first[0].message(), "Имате просрочен дълг от 12.34 лв. със срок 2025-01-01");
    ledger.payment_confirmation(1, id, "2026-01-01").unwrap();
    ledger.payment_confirmation(2, id, "2026-01-01").unwrap();
    let second = ledger.get_user_notifications(1, "2026-01-01").unwrap_err();
    assert_eq!(second.message(), "Нямате известия!");
    assert!(ledger.notes().is_empty());
}

#[test]
fn overdue_balance_is_reminded_on_every_refresh() {
    let mut ledger = two_users();
    ledger.insert_debt(1, 2, 0, 5, "2025-01-01", "");
    assert_eq!(ledger.get_user_notifications(1, "2026-01-01").unwrap().len(), 1);
    let again = ledger.get_user_notifications(1, "2026-01-01").unwrap();
    assert_eq!(again.len(), 1);
    assert_eq!(again[0].id(), 2);
    assert_eq!(again[0].message(), "Имате просрочен дълг от 0.05 лв. със срок 2025-01-01");
}

#[test]
fn balances_due_today_or_without_date_are_not_overdue() {
    let mut ledger = two_users();
    ledger.insert_debt(1, 2, 0, 100, "2026-01-01", "");
    ledger.insert_debt(1, 2, 0, 100, "", "");
    ledger.insert_debt(2, 1, 0, 100, "2020-01-01", "");
    assert!(ledger.get_user_notifications(1, "2026-01-01").is_err());
}
