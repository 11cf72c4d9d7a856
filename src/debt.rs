use vstd::prelude::*;

verus! {

/// What can go wrong in the ledger's operations.
#[derive(Clone, Copy, Debug, PartialEq, Eq, Structural)]
pub enum LedgerError {
    /// The expense amount is not positive.
    InvalidAmount,
    /// The due date is neither empty nor of the shape `YYYY-MM-DD`.
    InvalidDate,
    /// The acting user is neither the debtor nor the creditor of the balance.
    NotAParticipant,
    /// The balance has already been settled.
    AlreadySettled,
    /// No balance has the given id.
    UnknownDebt,
    /// The user has no notification to be shown.
    NoNotifications,
    /// The user has no unsettled balance in the requested role.
    NoObligations,
    /// A balance would exceed the largest representable amount.
    AmountOverflow,
    /// The group has no members to share an expense.
    EmptyGroup,
    /// The user belongs to no group.
    NoGroups,
    /// No user has the given id.
    UnknownUser,
    /// No user matches a search.
    NoSuchUser,
}

impl LedgerError {
    pub open spec fn text(self) -> Seq<char> {
        match self {
            LedgerError::InvalidAmount => "Сумата трябва да е положително число."@,
            LedgerError::InvalidDate => "Невалиден формат на дата. Използвайте YYYY-MM-DD."@,
            LedgerError::NotAParticipant => "Потребителят не е участник в този дълг."@,
            LedgerError::AlreadySettled => "Дългът вече е приключен."@,
            LedgerError::UnknownDebt => "Няма такъв дълг."@,
            LedgerError::NoNotifications => "Нямате известия!"@,
            LedgerError::NoObligations => "Нямате дългове или вземания!"@,
            LedgerError::AmountOverflow => "Сумата е твърде голяма."@,
            LedgerError::EmptyGroup => "Групата няма членове."@,
            LedgerError::NoGroups => "Нямате групи!"@,
            LedgerError::UnknownUser => "Не е намерен потребител."@,
            LedgerError::NoSuchUser => "Няма такъв потребител!"@,
        }
    }

    /// The message shown to the user for this error.
    pub fn message(&self) -> (r: String)
        ensures
            r@ == self.text(),
    {
        match self {
            LedgerError::InvalidAmount => String::from_str("Сумата трябва да е положително число."),
            LedgerError::InvalidDate => String::from_str("Невалиден формат на дата. Използвайте YYYY-MM-DD."),
            LedgerError::NotAParticipant => String::from_str("Потребителят не е участник в този дълг."),
            LedgerError::AlreadySettled => String::from_str("Дългът вече е приключен."),
            LedgerError::UnknownDebt => String::from_str("Няма такъв дълг."),
            LedgerError::NoNotifications => String::from_str("Нямате известия!"),
            LedgerError::NoObligations => String::from_str("Нямате дългове или вземания!"),
            LedgerError::AmountOverflow => String::from_str("Сумата е твърде голяма."),
            LedgerError::EmptyGroup => String::from_str("Групата няма членове."),
            LedgerError::NoGroups => String::from_str("Нямате групи!"),
            LedgerError::UnknownUser => String::from_str("Не е намерен потребител."),
            LedgerError::NoSuchUser => String::from_str("Няма такъв потребител!"),
        }
    }
}

/// Whether a balance may still be changed by netting.
#[derive(Clone, Copy, Debug, PartialEq, Eq, Structural)]
pub enum Confirmation {
    /// Neither party has confirmed: new activity may be folded into it.
    Unconfirmed,
    /// At least one party has confirmed: it stays exactly as confirmed.
    Locked,
}

/// An unsettled balance as read for a netting decision.
#[derive(Clone, Copy, Debug, PartialEq, Eq, Structural)]
pub struct OpenDebt {
    pub id: i32,
    pub amount: u64,
    pub confirmed_by_debtor: bool,
    pub confirmed_by_creditor: bool,
}

impl OpenDebt {
    pub open spec fn locked(self) -> bool {
        self.confirmed_by_debtor || self.confirmed_by_creditor
    }

    pub fn confirmation(&self) -> (r: Confirmation)
        ensures
            r == (if self.locked() { Confirmation::Locked } else { Confirmation::Unconfirmed }),
    {
        if self.confirmed_by_debtor || self.confirmed_by_creditor {
            Confirmation::Locked
        } else {
            Confirmation::Unconfirmed
        }
    }
}

/// What folding a new share `from -> to` into the ledger does.
#[derive(Clone, Copy, Debug, PartialEq, Eq, Structural)]
pub enum MergeStep {
    /// The unconfirmed balance `id` in the same direction now holds `amount`;
    /// its due date and description take the incoming values.
    Raise { id: i32, amount: u64 },
    /// A new unconfirmed balance of `amount` in the incoming direction.
    Open { amount: u64 },
    /// The unconfirmed reverse balance `id` keeps its direction and now holds
    /// `amount`; its due date and description take the incoming values.
    Reduce { id: i32, amount: u64 },
    /// The reverse balance `id` is deleted and a new balance of `amount` is
    /// opened in the incoming direction.
    Flip { id: i32, amount: u64 },
    /// The reverse balance `id` is deleted: both directions cancel exactly.
    Cancel { id: i32 },
}

/// The netting rule. `same` is the unsettled balance in the incoming
/// direction, `reverse` the one in the opposite direction (same group).
pub open spec fn merge_plan(same: Option<OpenDebt>, reverse: Option<OpenDebt>, amount: u64) -> Result<MergeStep, LedgerError> {
    match same {
        Some(d) => {
            if d.locked() {
                Ok(MergeStep::Open { amount })
            } else if d.amount + amount > u64::MAX {
                Err(LedgerError::AmountOverflow)
            } else {
                Ok(MergeStep::Raise { id: d.id, amount: (d.amount + amount) as u64 })
            }
        },
        None => match reverse {
            None => Ok(MergeStep::Open { amount }),
            Some(r) => {
                if r.locked() {
                    Ok(MergeStep::Open { amount })
                } else if amount > r.amount {
                    Ok(MergeStep::Flip { id: r.id, amount: (amount - r.amount) as u64 })
                } else if amount < r.amount {
                    Ok(MergeStep::Reduce { id: r.id, amount: (r.amount - amount) as u64 })
                } else {
                    Ok(MergeStep::Cancel { id: r.id })
                }
            },
        },
    }
}

/// Decides how a new share of `amount` is folded into the ledger, given the
/// unsettled balances found in the same and in the reverse direction.
pub fn plan_merge(same: Option<OpenDebt>, reverse: Option<OpenDebt>, amount: u64) -> (r: Result<MergeStep, LedgerError>)
    ensures
        r == merge_plan(same, reverse, amount),
{
    match same {
        Some(d) => match d.confirmation() {
            Confirmation::Locked => Ok(MergeStep::Open { amount }),
            Confirmation::Unconfirmed => match d.amount.checked_add(amount) {
                Some(total) => Ok(MergeStep::Raise { id: d.id, amount: total }),
                None => Err(LedgerError::AmountOverflow),
            },
        },
        None => match reverse {
            None => Ok(MergeStep::Open { amount }),
            Some(r) => match r.confirmation() {
                Confirmation::Locked => Ok(MergeStep::Open { amount }),
                Confirmation::Unconfirmed => {
                    if amount > r.amount {
                        Ok(MergeStep::Flip { id: r.id, amount: amount - r.amount })
                    } else if amount < r.amount {
                        Ok(MergeStep::Reduce { id: r.id, amount: r.amount - amount })
                    } else {
                        Ok(MergeStep::Cancel { id: r.id })
                    }
                },
            },
        },
    }
}

/// A directional balance from `from_id` (debtor) to `to_id` (creditor) in a
/// group. Amounts are in hundredths; an empty due date means none was set.
#[derive(Debug)]
pub struct Debt {
    pub id: i32,
    pub from_id: i32,
    pub to_id: i32,
    pub group_id: i32,
    pub amount: u64,
    pub due_date: String,
    pub description: String,
    pub confirmed_by_debtor: bool,
    pub confirmed_by_creditor: bool,
    pub settled: bool,
}

pub struct DebtView {
    pub id: int,
    pub from: i32,
    pub to: i32,
    pub group: i32,
    pub amount: nat,
    pub due: Seq<char>,
    pub desc: Seq<char>,
    pub by_debtor: bool,
    pub by_creditor: bool,
    pub settled: bool,
}

impl View for Debt {
    type V = DebtView;

    open spec fn view(&self) -> DebtView {
        DebtView {
            id: self.id as int,
            from: self.from_id,
            to: self.to_id,
            group: self.group_id,
            amount: self.amount as nat,
            due: self.due_date@,
            desc: self.description@,
            by_debtor: self.confirmed_by_debtor,
            by_creditor: self.confirmed_by_creditor,
            settled: self.settled,
        }
    }
}

impl Debt {
    /// The balance as a netting decision reads it.
    pub fn open_debt(&self) -> (r: OpenDebt)
        ensures
            r == open_of(self@),
    {
        OpenDebt {
            id: self.id,
            amount: self.amount,
            confirmed_by_debtor: self.confirmed_by_debtor,
            confirmed_by_creditor: self.confirmed_by_creditor,
        }
    }
}

pub open spec fn open_of(d: DebtView) -> OpenDebt {
    OpenDebt {
        id: d.id as i32,
        amount: d.amount as u64,
        confirmed_by_debtor: d.by_debtor,
        confirmed_by_creditor: d.by_creditor,
    }
}

} // verus!
