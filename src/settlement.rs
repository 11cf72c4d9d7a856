use vstd::prelude::*;
use crate::date::{text_lt, text_less};
use crate::debt::LedgerError;

verus! {

/// On-time settlements needed to count as a loyal payer.
pub const LOYALTY_THRESHOLD: u64 = 20;

/// The result of a confirmation.
#[derive(Clone, Copy, Debug, PartialEq, Eq, Structural)]
pub enum SettlementOutcome {
    /// Both parties have confirmed: the balance is settled.
    Settled,
    /// One party has confirmed; the other one has not yet.
    AwaitingOtherParty,
}

impl SettlementOutcome {
    pub open spec fn text(self) -> Seq<char> {
        match self {
            SettlementOutcome::Settled => "Дългът е напълно изплатен и приключен."@,
            SettlementOutcome::AwaitingOtherParty => "Потвърдено. Очаква се другата страна да потвърди."@,
        }
    }

    /// The message shown to the user for this outcome.
    pub fn message(&self) -> (r: String)
        ensures
            r@ == self.text(),
    {
        match self {
            SettlementOutcome::Settled => String::from_str("Дългът е напълно изплатен и приключен."),
            SettlementOutcome::AwaitingOtherParty => String::from_str("Потвърдено. Очаква се другата страна да потвърди."),
        }
    }
}

/// The confirmation flags after `user` confirms a balance from `from` to
/// `to`: the debtor's flag if `user` is the debtor, else the creditor's flag
/// if `user` is the creditor.
pub open spec fn confirmed_flags(from: i32, to: i32, by_debtor: bool, by_creditor: bool, user: i32) -> Result<(bool, bool), LedgerError> {
    if user == from {
        Ok((true, by_creditor))
    } else if user == to {
        Ok((by_debtor, true))
    } else {
        Err(LedgerError::NotAParticipant)
    }
}

/// Sets the confirmation flag of `user`'s role on a balance from `from` to `to`.
pub fn confirm_flags(from: i32, to: i32, by_debtor: bool, by_creditor: bool, user: i32) -> (r: Result<(bool, bool), LedgerError>)
    ensures
        r == confirmed_flags(from, to, by_debtor, by_creditor, user),
{
    if user == from {
        Ok((true, by_creditor))
    } else if user == to {
        Ok((by_debtor, true))
    } else {
        Err(LedgerError::NotAParticipant)
    }
}

/// How a settlement stands against its due date.
#[derive(Clone, Copy, Debug, PartialEq, Eq, Structural)]
pub enum Punctuality {
    /// The balance had no due date.
    NoDueDate,
    /// Settled on or before the due date.
    OnTime,
    /// Settled after the due date.
    Late,
}

pub open spec fn punctuality_of(due: Seq<char>, today: Seq<char>) -> Punctuality {
    if due.len() == 0 {
        Punctuality::NoDueDate
    } else if text_lt(due, today) {
        Punctuality::Late
    } else {
        Punctuality::OnTime
    }
}

/// Classifies a settlement made on `today` of a balance due on `due`.
pub fn punctuality(due: &str, today: &str) -> (r: Punctuality)
    ensures
        r == punctuality_of(due@, today@),
{
    if due.unicode_len() == 0 {
        Punctuality::NoDueDate
    } else if text_less(due, today) {
        Punctuality::Late
    } else {
        Punctuality::OnTime
    }
}

/// A user's record of settlements.
#[derive(Clone, Copy, Debug, PartialEq, Eq, Structural)]
pub struct Loyalty {
    pub on_time_payments: u64,
    pub loyal_payer: bool,
}

/// The counter after one more on-time settlement; it stays at its largest value.
pub open spec fn bumped(n: u64) -> u64 {
    if n == u64::MAX { n } else { (n + 1) as u64 }
}

/// The record after one settlement: an on-time one raises the counter and
/// makes the user loyal once the counter reaches the threshold; a late one
/// clears the loyal flag and keeps the counter; one without a due date
/// changes nothing.
pub open spec fn loyalty_after(l: Loyalty, p: Punctuality) -> Loyalty {
    match p {
        Punctuality::NoDueDate => l,
        Punctuality::OnTime => Loyalty {
            on_time_payments: bumped(l.on_time_payments),
            loyal_payer: l.loyal_payer || bumped(l.on_time_payments) >= LOYALTY_THRESHOLD,
        },
        Punctuality::Late => Loyalty { on_time_payments: l.on_time_payments, loyal_payer: false },
    }
}

/// Applies one settlement to a user's record.
pub fn record_settlement(l: Loyalty, p: Punctuality) -> (r: Loyalty)
    ensures
        r == loyalty_after(l, p),
{
    match p {
        Punctuality::NoDueDate => l,
        Punctuality::OnTime => {
            let n = l.on_time_payments.saturating_add(1);
            Loyalty { on_time_payments: n, loyal_payer: l.loyal_payer || n >= LOYALTY_THRESHOLD }
        },
        Punctuality::Late => Loyalty { on_time_payments: l.on_time_payments, loyal_payer: false },
    }
}

/// The loyal flag is set by the twentieth on-time settlement and not before:
/// a user who was not loyal and had 18 on-time settlements is still not
/// loyal after the nineteenth, and one with 19 is loyal after the twentieth.
pub proof fn lemma_loyalty_threshold(l: Loyalty)
    ensures
        l.on_time_payments == 18 && !l.loyal_payer ==> {
            let a = loyalty_after(l, Punctuality::OnTime);
            a.on_time_payments == 19 && !a.loyal_payer
        },
        l.on_time_payments == 19 ==> {
            let a = loyalty_after(l, Punctuality::OnTime);
            a.on_time_payments == 20 && a.loyal_payer
        },
{
}

/// One settlement moves the counter by exactly one when on time, and leaves
/// it unchanged with the loyal flag cleared when late.
pub proof fn lemma_settlement_counts_once(l: Loyalty)
    requires
        l.on_time_payments < u64::MAX,
    ensures
        loyalty_after(l, Punctuality::OnTime).on_time_payments == l.on_time_payments + 1,
        loyalty_after(l, Punctuality::Late).on_time_payments == l.on_time_payments,
        !loyalty_after(l, Punctuality::Late).loyal_payer,
{
}

} // verus!
