use split_money_manager::ledger::Ledger;

fn two_in_a_group() -> Ledger {
    let mut ledger = Ledger::new();
    ledger.add_account(1, "Ivan", "", "", 0, false);
    ledger.add_account(2, "Maria", "", "", 0, false);
    ledger.add_group(1, "gr1", 1);
    ledger.add_member(1, 1);
    ledger.add_member(1, 2);
    ledger
}

#[test]
fn get_user_debt_or_credit() {
    let mut ledger = two_in_a_group();
    ledger.insert_debt(1, 2, 1, 10000, "2026-01-01", "Балони за рожден ден");

    let result = ledger.get_user_debts_or_credits(1, true).unwrap();
    assert_eq!(result[0].username(), "Maria");
    assert_eq!(result[0].group_name(), "gr1");
    assert_eq!(result[0].due_date(), "2026-01-01");
    assert_eq!(result[0].amount(), 10000);
    assert_eq!(result[0].description(), "Балони за рожден ден");
}

#[test]
fn credits_name_the_debtor_and_come_by_due_date() {
    let mut ledger = two_in_a_group();
    ledger.insert_debt(2, 1, 1, 300, "2026-05-01", "c");
    ledger.insert_debt(2, 1, 1, 100, "2026-01-01", "a");
    ledger.insert_debt(2, 1, 1, 200, "2026-03-01", "b");
    let result = ledger.get_user_debts_or_credits(1, false).unwrap();
    let order: Vec<&str> = result.iter().map(|e| e.description()).collect();
    assert_eq!(order, vec!["a", "b", "c"]);
    assert!(result.iter().all(|e| e.username() == "Maria"));
}

#[test]
fn settled_and_foreign_balances_are_not_listed() {
    let mut ledger = two_in_a_group();
    let id = ledger.insert_debt(1, 2, 1, 10000, "", "");
    ledger.payment_confirmation(1, id, "2026-01-01").unwrap();
    ledger.payment_confirmation(2, id, "2026-01-01").unwrap();
    ledger.insert_debt(1, 2, 9, 500, "", "unknown group");
    let err = ledger.get_user_debts_or_credits(1, true).unwrap_err();
    assert_eq!(err.message(), "Нямате дългове или вземания!");
}
