use split_money_manager::debt::LedgerError;
use split_money_manager::ledger::Ledger;
use split_money_manager::settlement::SettlementOutcome;

fn two_users(on_time: u64, loyal: bool) -> Ledger {
    let mut ledger = Ledger::new();
    ledger.add_account(1, "Ivan", "", "", on_time, loyal);
    ledger.add_account(2, "Maria", "", "", 0, false);
    ledger
}

#[test]
fn payment_confirmation_on_time_payments_20() {
    let mut ledger = two_users(19, false);
    let id = ledger.insert_debt(1, 2, 0, 5000, "2026-01-02", "");
    assert_eq!(id, 1);

    let result1 = ledger.payment_confirmation(1, 1, "2026-01-01").unwrap();
    assert_eq!(result1.message(), "Потвърдено. Очаква се другата страна да потвърди.");

    let result2 = ledger.payment_confirmation(2, 1, "2026-01-01").unwrap();
    assert_eq!(result2.message(), "Дългът е напълно изплатен и приключен.");

    assert!(ledger.debts()[0].settled);
    assert_eq!(ledger.accounts()[0].on_time_payments, 20);
    assert!(ledger.accounts()[0].loyal_payer);
}

#[test]
fn nineteenth_on_time_settlement_is_not_yet_loyal() {
    let mut ledger = two_users(18, false);
    ledger.insert_debt(1, 2, 0, 5000, "2026-01-01", "");
    ledger.payment_confirmation(2, 1, "2026-01-01").unwrap();
    assert_eq!(ledger.payment_confirmation(1, 1, "2026-01-01").unwrap(), SettlementOutcome::Settled);
    assert_eq!(ledger.accounts()[0].on_time_payments, 19);
    assert!(!ledger.accounts()[0].loyal_payer);
}

#[test]
fn late_settlement_clears_loyalty_and_keeps_counter() {
    let mut ledger = two_users(25, true);
    ledger.insert_debt(1, 2, 0, 5000, "2025-12-31", "");
    ledger.payment_confirmation(1, 1, "2026-01-01").unwrap();
    ledger.payment_confirmation(2, 1, "2026-01-01").unwrap();
    assert_eq!(ledger.accounts()[0].on_time_payments, 25);
    assert!(!ledger.accounts()[0].loyal_payer);
}

#[test]
fn settlement_without_due_date_leaves_record() {
    let mut ledger = two_users(3, true);
    ledger.insert_debt(1, 2, 0, 5000, "", "");
    ledger.payment_confirmation(1, 1, "2026-01-01").unwrap();
    ledger.payment_confirmation(2, 1, "2026-01-01").unwrap();
    assert_eq!(ledger.accounts()[0].on_time_payments, 3);
    assert!(ledger.accounts()[0].loyal_payer);
}

#[test]
fn confirming_twice_as_debtor_does_not_settle() {
    let mut ledger = two_users(0, false);
    ledger.insert_debt(1, 2, 0, 5000, "2026-01-02", "");
    assert_eq!(ledger.payment_confirmation(1, 1, "2026-01-01").unwrap(), SettlementOutcome::AwaitingOtherParty);
    assert_eq!(ledger.payment_confirmation(1, 1, "2026-01-01").unwrap(), SettlementOutcome::AwaitingOtherParty);
    let d = &ledger.debts()[0];
    assert!(d.confirmed_by_debtor && !d.confirmed_by_creditor && !d.settled);
    assert_eq!(ledger.accounts()[0].on_time_payments, 0);
}

#[test]
fn settled_balance_counts_once() {
    let mut ledger = two_users(0, false);
    ledger.insert_debt(1, 2, 0, 5000, "2026-01-02", "");
    ledger.payment_confirmation(1, 1, "2026-01-01").unwrap();
    ledger.payment_confirmation(2, 1, "2026-01-01").unwrap();
    let err = ledger.payment_confirmation(2, 1, "2026-01-01").unwrap_err();
    assert_eq!(err, LedgerError::AlreadySettled);
    assert_eq!(ledger.accounts()[0].on_time_payments, 1);
}

#[test]
fn outsiders_and_unknown_balances_are_refused() {
    let mut ledger = two_users(0, false);
    ledger.insert_debt(1, 2, 0, 5000, "", "");
    let err = ledger.payment_confirmation(3, 1, "2026-01-01").unwrap_err();
    assert_eq!(err.message(), "Потребителят не е участник в този дълг.");
    assert!(!ledger.debts()[0].confirmed_by_debtor && !ledger.debts()[0].confirmed_by_creditor);
    assert_eq!(ledger.payment_confirmation(1, 9, "2026-01-01").unwrap_err(), LedgerError::UnknownDebt);
}

#[test]
fn confirmed_balance_is_not_netted() {
    let mut ledger = two_users(0, false);
    ledger.insert_debt(2, 1, 0, 10000, "", "old");
    ledger.payment_confirmation(2, 1, "2026-01-01").unwrap();
    ledger.add_or_update_debt(1, 2, 0, 4000, "", "new").unwrap();
    assert_eq!(ledger.debts().len(), 2);
    assert_eq!(ledger.debts()[0].amount, 10000);
    assert_eq!(ledger.debts()[1].amount, 4000);
    assert_eq!(ledger.debts()[1].from_id, 1);
    ledger.add_or_update_debt(1, 2, 0, 1000, "", "more").unwrap();
    assert_eq!(ledger.debts()[1].amount, 5000);
    assert_eq!(ledger.debts()[1].description, "more");
}
