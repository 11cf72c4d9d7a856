use split_money_manager::debt::{plan_merge, MergeStep, OpenDebt, LedgerError};
use split_money_manager::ledger::Ledger;

fn open(id: i32, amount: u64, debtor: bool, creditor: bool) -> OpenDebt {
    OpenDebt { id, amount, confirmed_by_debtor: debtor, confirmed_by_creditor: creditor }
}

#[test]
fn opposite_balances_of_equal_amount_cancel() {
    let mut ledger = Ledger::new();
    ledger.add_or_update_debt(2, 1, 5, 7000, "", "x").unwrap();
    ledger.add_or_update_debt(1, 2, 5, 7000, "", "y").unwrap();
    assert!(ledger.debts().is_empty());
}

#[test]
fn larger_share_flips_the_direction() {
    let mut ledger = Ledger::new();
    ledger.add_or_update_debt(2, 1, 5, 10000, "", "x").unwrap();
    ledger.add_or_update_debt(1, 2, 5, 15000, "2026-02-02", "y").unwrap();
    assert_eq!(ledger.debts().len(), 1);
    let d = &ledger.debts()[0];
    assert_eq!((d.from_id, d.to_id, d.amount), (1, 2, 5000));
    assert_eq!(d.id, 2);
}

#[test]
fn smaller_share_reduces_the_reverse_balance() {
    let mut ledger = Ledger::new();
    ledger.add_or_update_debt(2, 1, 5, 10000, "", "x").unwrap();
    ledger.add_or_update_debt(1, 2, 5, 4000, "2026-02-02", "y").unwrap();
    assert_eq!(ledger.debts().len(), 1);
    let d = &ledger.debts()[0];
    assert_eq!((d.from_id, d.to_id, d.amount), (2, 1, 6000));
    assert_eq!(d.due_date, "2026-02-02");
    assert_eq!(d.description, "y");
}

#[test]
fn same_direction_shares_accumulate() {
    let mut ledger = Ledger::new();
    ledger.add_or_update_debt(1, 2, 5, 10000, "2026-01-01", "x").unwrap();
    ledger.add_or_update_debt(1, 2, 5, 10000, "2026-02-02", "y").unwrap();
    assert_eq!(ledger.debts().len(), 1);
    assert_eq!(ledger.debts()[0].amount, 20000);
    assert_eq!(ledger.debts()[0].due_date, "2026-02-02");
}

#[test]
fn balances_in_other_groups_are_kept_apart() {
    let mut ledger = Ledger::new();
    ledger.add_or_update_debt(2, 1, 5, 10000, "", "x").unwrap();
    ledger.add_or_update_debt(1, 2, 6, 10000, "", "y").unwrap();
    assert_eq!(ledger.debts().len(), 2);
}

#[test]
fn plan_follows_the_netting_rule() {
    assert_eq!(plan_merge(None, None, 10), Ok(MergeStep::Open { amount: 10 }));
    assert_eq!(plan_merge(Some(open(3, 5, false, false)), None, 10), Ok(MergeStep::Raise { id: 3, amount: 15 }));
    assert_eq!(plan_merge(Some(open(3, 5, true, false)), None, 10), Ok(MergeStep::Open { amount: 10 }));
    assert_eq!(plan_merge(None, Some(open(4, 5, false, false)), 10), Ok(MergeStep::Flip { id: 4, amount: 5 }));
    assert_eq!(plan_merge(None, Some(open(4, 15, false, false)), 10), Ok(MergeStep::Reduce { id: 4, amount: 5 }));
    assert_eq!(plan_merge(None, Some(open(4, 10, false, false)), 10), Ok(MergeStep::Cancel { id: 4 }));
    assert_eq!(plan_merge(None, Some(open(4, 10, false, true)), 10), Ok(MergeStep::Open { amount: 10 }));
    assert_eq!(plan_merge(Some(open(3, u64::MAX, false, false)), None, 1), Err(LedgerError::AmountOverflow));
}
