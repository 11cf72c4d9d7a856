use split_money_manager::ledger::Ledger;

fn amount_between(ledger: &Ledger, from: i32, to: i32) -> u64 {
    let found: Vec<u64> = ledger
        .debts()
        .iter()
        .filter(|d| d.from_id == from && d.to_id == to)
        .map(|d| d.amount)
        .collect();
    assert_eq!(found.len(), 1);
    found[0]
}

fn birthday_group() -> Ledger {
    let mut ledger = Ledger::new();
    ledger.add_account(1, "Ivan", "", "", 0, false);
    ledger.add_account(2, "Maria", "", "", 0, false);
    ledger.add_account(3, "Georgi", "", "", 0, false);
    ledger.add_group(1, "gr1", 1);
    ledger.add_member(1, 1);
    ledger.add_member(1, 2);
    ledger.add_member(1, 3);
    ledger
}

#[test]
fn add_payment() {
    let mut ledger = birthday_group();

    ledger.add_expenses(1, 1, 30000, "Балони за рожден ден", "2026-01-01").unwrap();
    ledger.add_expenses(2, 1, 60000, "Торта за рожден ден", "2026-03-03").unwrap();

    assert_eq!(amount_between(&ledger, 1, 2), 10000);
    assert_eq!(amount_between(&ledger, 3, 1), 10000);
    assert_eq!(amount_between(&ledger, 3, 2), 20000);
}

#[test]
fn three_members_owe_the_payer_equal_shares() {
    let mut ledger = birthday_group();
    ledger.add_expenses(1, 1, 30000, "Балони", "2026-01-01").unwrap();

    assert_eq!(ledger.debts().len(), 2);
    assert_eq!(amount_between(&ledger, 2, 1), 10000);
    assert_eq!(amount_between(&ledger, 3, 1), 10000);
    assert!(ledger.debts().iter().all(|d| !d.settled && d.group_id == 1 && d.to_id == 1));
}

#[test]
fn later_expense_flips_and_adds() {
    let mut ledger = birthday_group();
    ledger.add_expenses(1, 1, 30000, "a", "2026-01-01").unwrap();
    ledger.add_expenses(2, 1, 60000, "b", "2026-03-03").unwrap();

    assert_eq!(ledger.debts().len(), 3);
    assert!(ledger.debts().iter().all(|d| !(d.from_id == 2 && d.to_id == 1)));
    let flipped: Vec<_> = ledger.debts().iter().filter(|d| d.from_id == 1 && d.to_id == 2).collect();
    assert_eq!(flipped[0].due_date, "2026-03-03");
    assert_eq!(flipped[0].description, "b");
}

#[test]
fn invalid_date_is_refused_before_any_change() {
    let mut ledger = birthday_group();
    let err = ledger.add_expenses(1, 1, 30000, "a", "01-01-2026").unwrap_err();
    assert_eq!(err.message(), "Невалиден формат на дата. Използвайте YYYY-MM-DD.");
    let err = ledger.add_expenses(1, 1, 30000, "a", "2026-1-01").unwrap_err();
    assert_eq!(err.message(), "Невалиден формат на дата. Използвайте YYYY-MM-DD.");
    assert!(ledger.debts().is_empty());
}

#[test]
fn non_positive_amount_is_refused() {
    let mut ledger = birthday_group();
    let err = ledger.add_expenses(1, 1, 0, "a", "").unwrap_err();
    assert_eq!(err.message(), "Сумата трябва да е положително число.");
    let err = ledger.add_expenses(1, 1, -500, "a", "2026-01-01").unwrap_err();
    assert_eq!(err.message(), "Сумата трябва да е положително число.");
    assert!(ledger.debts().is_empty());
}

#[test]
fn date_is_checked_before_amount() {
    let mut ledger = birthday_group();
    let err = ledger.add_expenses(1, 1, 0, "a", "tomorrow").unwrap_err();
    assert_eq!(err.message(), "Невалиден формат на дата. Използвайте YYYY-MM-DD.");
}

#[test]
fn empty_group_is_refused_and_tiny_amounts_leave_no_balance() {
    let mut ledger = birthday_group();
    let err = ledger.add_expenses(1, 7, 30000, "a", "").unwrap_err();
    assert_eq!(err.message(), "Групата няма членове.");
    assert!(ledger.debts().is_empty());
    ledger.add_expenses(1, 1, 2, "a", "").unwrap();
    assert!(ledger.debts().is_empty());
}

#[test]
fn overflowing_merge_changes_nothing() {
    let mut ledger = birthday_group();
    ledger.add_or_update_debt(2, 1, 1, u64::MAX - 5, "", "big").unwrap();
    let err = ledger.add_expenses(1, 1, 30, "a", "").unwrap_err();
    assert_eq!(err.message(), "Сумата е твърде голяма.");
    assert_eq!(ledger.debts().len(), 1);
    assert_eq!(ledger.debts()[0].amount, u64::MAX - 5);
    assert_eq!(ledger.debts()[0].description, "big");
}

#[test]
fn members_are_listed_once() {
    let mut ledger = birthday_group();
    ledger.add_member(1, 2);
    assert_eq!(ledger.members_of(1), vec![1, 2, 3]);
    assert!(ledger.members_of(2).is_empty());
}

#[test]
fn sharing_skips_validation_and_splits_among_all_members() {
    let mut ledger = birthday_group();
    ledger.share_expense(3, 1, 900, "x", "whenever").unwrap();
    assert_eq!(amount_between(&ledger, 1, 3), 300);
    assert_eq!(amount_between(&ledger, 2, 3), 300);
    ledger.share_expense(3, 1, 0, "x", "").unwrap();
    assert_eq!(ledger.debts().len(), 2);
}
