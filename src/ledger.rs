use vstd::prelude::*;
use vstd::string::StringSliceAdditionalSpecFns;
use crate::auth::{LoginError, check_password, password_record, password_verdict};
use crate::date::{lemma_text_lt_irreflexive, lemma_text_lt_transitive, text_less, text_lt};
use crate::debt::{Debt, DebtView, LedgerError, MergeStep, OpenDebt, plan_merge};
use crate::expenses::Expenses;
use crate::group::Group;
use crate::model::{
    AccountView, LedgerModel, NoteView, by_due_date, confirmation_result, delivers, entries, entry_of,
    expense_added, expense_shared, find_account, find_account_from, find_debt, find_debt_from, find_email,
    find_email_from, find_group, find_group_from, find_open, find_open_from, found_users, group_created,
    group_members, groups_of, joined, lemma_find_account_from, lemma_find_debt, lemma_find_email_from,
    lemma_find_group_from, lemma_find_open, lemma_group_members_len, lemma_spread_err_extends,
    lemma_swept_len, loyalty_applied, mark_shown, merged, model_wf, name_in_use, open_at, overdue_text,
    pruned, refreshed, registered, spread, swept, unshown, with_amount, with_debt, without_debt,
};
use crate::money::{format_amount, share_of, split_share};
use crate::notification::Notification;
use crate::search::occurs;
use crate::settlement::{Loyalty, Punctuality, SettlementOutcome, confirm_flags, punctuality, record_settlement};
use crate::user::User;
use crate::validate::{RegistrationError, check_registration, is_valid_due_date};

verus! {

/// A user's record in the ledger: identity and settlement history.
#[derive(Debug)]
pub struct Account {
    pub id: i32,
    pub username: String,
    pub email: String,
    pub password_hash: String,
    pub on_time_payments: u64,
    pub loyal_payer: bool,
}

impl View for Account {
    type V = AccountView;

    open spec fn view(&self) -> AccountView {
        AccountView {
            id: self.id,
            username: self.username@,
            email: self.email@,
            password_hash: self.password_hash@,
            on_time: self.on_time_payments,
            loyal: self.loyal_payer,
        }
    }
}

/// A stored notification; `shown` is set once it has been delivered.
#[derive(Debug)]
pub struct Note {
    pub id: i32,
    pub user_id: i32,
    pub message: String,
    pub shown: bool,
}

impl View for Note {
    type V = NoteView;

    open spec fn view(&self) -> NoteView {
        NoteView { id: self.id as int, user: self.user_id, message: self.message@, shown: self.shown }
    }
}

/// An in-memory store for the ledger. Ids of balances, users, groups and
/// notifications are handed out in increasing order, starting at 1.
pub struct Ledger {
    debts: Vec<Debt>,
    next_debt_id: i32,
    accounts: Vec<Account>,
    next_user_id: i32,
    groups: Vec<(Group, i32)>,
    next_group_id: i32,
    members: Vec<(i32, i32)>,
    notes: Vec<Note>,
    next_note_id: i32,
}

impl View for Ledger {
    type V = LedgerModel;

    closed spec fn view(&self) -> LedgerModel {
        LedgerModel {
            debts: self.debts@.map_values(|d: Debt| d@),
            next_debt_id: self.next_debt_id as int,
            accounts: self.accounts@.map_values(|a: Account| a@),
            next_user_id: self.next_user_id as int,
            groups: self.groups@.map_values(|g: (Group, i32)| (g.0.id, g.0.groupname@, g.1)),
            next_group_id: self.next_group_id as int,
            members: self.members@,
            notes: self.notes@.map_values(|n: Note| n@),
            next_note_id: self.next_note_id as int,
        }
    }
}

/// The reminder of an overdue balance of `amount` hundredths due on `due`.
pub fn overdue_notice(amount: u64, due: &str) -> (r: String)
    ensures
        r@ == overdue_text(amount as nat, due@),
{
    let mut m = String::from_str("Имате просрочен дълг от ");
    let a = format_amount(amount);
    m.append(a.as_str());
    m.append(" лв. със срок ");
    m.append(due);
    m
}

impl Ledger {
    pub open spec fn wf(&self) -> bool {
        model_wf(self@)
    }

    /// An empty ledger.
    pub fn new() -> (r: Ledger)
        ensures
            r.wf(),
            r@.debts.len() == 0,
            r@.accounts.len() == 0,
            r@.groups.len() == 0,
            r@.members.len() == 0,
            r@.notes.len() == 0,
            r@.next_debt_id == 1,
            r@.next_user_id == 1,
            r@.next_group_id == 1,
            r@.next_note_id == 1,
    {
        let r = Ledger {
            debts: Vec::new(),
            next_debt_id: 1,
            accounts: Vec::new(),
            next_user_id: 1,
            groups: Vec::new(),
            next_group_id: 1,
            members: Vec::new(),
            notes: Vec::new(),
            next_note_id: 1,
        };
        assert(r@.debts.len() == 0);
        r
    }

    fn find_open(&self, from: i32, to: i32, group: i32) -> (r: Option<usize>)
        ensures
            match r {
                Some(k) => find_open(self@.debts, from, to, group) == Some(k as int),
                None => find_open(self@.debts, from, to, group) is None,
            },
    {
        let mut i: usize = 0;
        while i < self.debts.len()
            invariant
                0 <= i <= self.debts@.len(),
                find_open(self@.debts, from, to, group) == find_open_from(self@.debts, i as int, from, to, group),
            decreases self.debts@.len() - i,
        {
            let d = &self.debts[i];
            assert(self@.debts[i as int] == d@);
            if !d.settled && d.from_id == from && d.to_id == to && d.group_id == group {
                return Some(i);
            }
            i = i + 1;
        }
        None
    }

    fn open_debt_at(&self, k: Option<usize>) -> (r: Option<OpenDebt>)
        requires
            self.wf(),
            k matches Some(i) ==> i < self@.debts.len(),
        ensures
            r == open_at(self@.debts, match k { Some(i) => Some(i as int), None => None }),
    {
        match k {
            Some(i) => {
                assert(self@.debts[i as int] == self.debts@[i as int]@);
                Some(self.debts[i].open_debt())
            },
            None => None,
        }
    }

    fn push_debt(&mut self, from: i32, to: i32, group: i32, amount: u64, due: &str, desc: &str)
        requires
            old(self).wf(),
            amount > 0,
            old(self)@.next_debt_id < i32::MAX,
        ensures
            final(self).wf(),
            final(self)@ == with_debt(old(self)@, from, to, group, amount as nat, due@, desc@),
    {
        let d = Debt {
            id: self.next_debt_id,
            from_id: from,
            to_id: to,
            group_id: group,
            amount,
            due_date: String::from_str(due),
            description: String::from_str(desc),
            confirmed_by_debtor: false,
            confirmed_by_creditor: false,
            settled: false,
        };
        self.debts.push(d);
        self.next_debt_id = self.next_debt_id + 1;
        assert(self@.debts =~= with_debt(old(self)@, from, to, group, amount as nat, due@, desc@).debts);
    }

    fn remove_debt(&mut self, k: usize)
        requires
            old(self).wf(),
            k < old(self)@.debts.len(),
        ensures
            final(self).wf(),
            final(self)@ == without_debt(old(self)@, k as int),
    {
        self.debts.remove(k);
        assert(self@.debts =~= without_debt(old(self)@, k as int).debts);
    }

    fn set_amount(&mut self, k: usize, amount: u64, due: &str, desc: &str)
        requires
            old(self).wf(),
            k < old(self)@.debts.len(),
            amount > 0,
        ensures
            final(self).wf(),
            final(self)@ == with_amount(old(self)@, k as int, amount as nat, due@, desc@),
    {
        let old_debt = &self.debts[k];
        let d = Debt {
            id: old_debt.id,
            from_id: old_debt.from_id,
            to_id: old_debt.to_id,
            group_id: old_debt.group_id,
            amount,
            due_date: String::from_str(due),
            description: String::from_str(desc),
            confirmed_by_debtor: old_debt.confirmed_by_debtor,
            confirmed_by_creditor: old_debt.confirmed_by_creditor,
            settled: old_debt.settled,
        };
        self.debts.set(k, d);
        assert(self@.debts =~= with_amount(old(self)@, k as int, amount as nat, due@, desc@).debts);
    }

    /// Folds a share of `amount` hundredths owed by `from_id` to `to_id` in
    /// `group_id` into the ledger, netting it against the balances there.
    pub fn add_or_update_debt(
        &mut self,
        from_id: i32,
        to_id: i32,
        group_id: i32,
        amount: u64,
        due_date: &str,
        description: &str,
    ) -> (r: Result<(), LedgerError>)
        requires
            old(self).wf(),
            amount > 0,
            old(self)@.next_debt_id < i32::MAX,
        ensures
            final(self).wf(),
            match merged(old(self)@, from_id, to_id, group_id, amount, due_date@, description@) {
                Ok(m) => r is Ok && final(self)@ == m,
                Err(e) => r == Err::<(), LedgerError>(e) && final(self)@ == old(self)@,
            },
            final(self)@.next_debt_id <= old(self)@.next_debt_id + 1,
            final(self)@.members == old(self)@.members,
            final(self)@.accounts == old(self)@.accounts,
            final(self)@.next_user_id == old(self)@.next_user_id,
            final(self)@.groups == old(self)@.groups,
            final(self)@.next_group_id == old(self)@.next_group_id,
            final(self)@.notes == old(self)@.notes,
            final(self)@.next_note_id == old(self)@.next_note_id,
    {
        let same = self.find_open(from_id, to_id, group_id);
        let rev = self.find_open(to_id, from_id, group_id);
        proof {
            lemma_find_open(self@.debts, from_id, to_id, group_id);
            lemma_find_open(self@.debts, to_id, from_id, group_id);
        }
        let same_open = self.open_debt_at(same);
        let rev_open = self.open_debt_at(rev);
        let step = match plan_merge(same_open, rev_open, amount) {
            Ok(s) => s,
            Err(e) => return Err(e),
        };
        match step {
            MergeStep::Raise { id: _, amount: total } => {
                let k = same.unwrap();
                self.set_amount(k, total, due_date, description);
            },
            MergeStep::Open { amount: a } => {
                self.push_debt(from_id, to_id, group_id, a, due_date, description);
            },
            MergeStep::Reduce { id: _, amount: rest } => {
                let k = rev.unwrap();
                self.set_amount(k, rest, due_date, description);
            },
            MergeStep::Flip { id: _, amount: diff } => {
                let k = rev.unwrap();
                self.remove_debt(k);
                self.push_debt(from_id, to_id, group_id, diff, due_date, description);
            },
            MergeStep::Cancel { id: _ } => {
                let k = rev.unwrap();
                self.remove_debt(k);
            },
        }
        Ok(())
    }

    /// Stores a new unconfirmed balance and returns its id.
    pub fn insert_debt(&mut self, from_id: i32, to_id: i32, group_id: i32, amount: u64, due_date: &str, description: &str) -> (r: i32)
        requires
            old(self).wf(),
            amount > 0,
            old(self)@.next_debt_id < i32::MAX,
        ensures
            final(self).wf(),
            final(self)@ == with_debt(old(self)@, from_id, to_id, group_id, amount as nat, due_date@, description@),
            r == old(self)@.next_debt_id,
    {
        let id = self.next_debt_id;
        self.push_debt(from_id, to_id, group_id, amount, due_date, description);
        id
    }

    /// Stores a user with a given id; ids handed out by registration come after it.
    pub fn add_account(&mut self, id: i32, username: &str, email: &str, password_hash: &str, on_time_payments: u64, loyal_payer: bool)
        requires
            old(self).wf(),
            id < i32::MAX,
        ensures
            final(self).wf(),
            final(self)@ == (LedgerModel {
                accounts: old(self)@.accounts.push(AccountView {
                    id,
                    username: username@,
                    email: email@,
                    password_hash: password_hash@,
                    on_time: on_time_payments,
                    loyal: loyal_payer,
                }),
                next_user_id: if id + 1 > old(self)@.next_user_id { id + 1 } else { old(self)@.next_user_id },
                ..old(self)@
            }),
    {
        let a = Account {
            id,
            username: String::from_str(username),
            email: String::from_str(email),
            password_hash: String::from_str(password_hash),
            on_time_payments,
            loyal_payer,
        };
        self.accounts.push(a);
        if id + 1 > self.next_user_id {
            self.next_user_id = id + 1;
        }
        assert(self@.accounts =~= old(self)@.accounts.push(a@));
    }

    /// Stores a group with a given id and owner; ids handed out by
    /// `create_group` come after it.
    pub fn add_group(&mut self, id: i32, name: &str, owner_id: i32)
        requires
            old(self).wf(),
            id < i32::MAX,
        ensures
            final(self).wf(),
            final(self)@ == (LedgerModel {
                groups: old(self)@.groups.push((id, name@, owner_id)),
                next_group_id: if id + 1 > old(self)@.next_group_id { id + 1 } else { old(self)@.next_group_id },
                ..old(self)@
            }),
    {
        let g = Group::new(id, String::from_str(name));
        self.groups.push((g, owner_id));
        if id + 1 > self.next_group_id {
            self.next_group_id = id + 1;
        }
        assert(self@.groups =~= old(self)@.groups.push((id, name@, owner_id)));
    }

    /// Makes `user_id` a member of `group_id`; a member is listed once.
    pub fn add_member(&mut self, group_id: i32, user_id: i32)
        requires
            old(self).wf(),
        ensures
            final(self).wf(),
            final(self)@ == (LedgerModel {
                members: if old(self)@.members.contains((group_id, user_id)) {
                    old(self)@.members
                } else {
                    old(self)@.members.push((group_id, user_id))
                },
                ..old(self)@
            }),
    {
        let mut i: usize = 0;
        while i < self.members.len()
            invariant
                0 <= i <= self.members@.len(),
                forall|j: int| 0 <= j < i ==> self.members@[j] != (group_id, user_id),
                self@ == old(self)@,
                self.wf(),
            decreases self.members@.len() - i,
        {
            let (g, u) = self.members[i];
            if g == group_id && u == user_id {
                assert(self@.members[i as int] == (group_id, user_id));
                return;
            }
            i = i + 1;
        }
        self.members.push((group_id, user_id));
    }

    /// The members of `group_id`, in the order in which they joined.
    pub fn members_of(&self, group_id: i32) -> (r: Vec<i32>)
        ensures
            r@ == group_members(self@.members, group_id),
    {
        let mut r: Vec<i32> = Vec::new();
        let mut i: usize = 0;
        while i < self.members.len()
            invariant
                0 <= i <= self.members@.len(),
                r@ == group_members(self@.members.take(i as int), group_id),
            decreases self.members@.len() - i,
        {
            let (g, u) = self.members[i];
            assert(self@.members.take(i as int + 1).drop_last() =~= self@.members.take(i as int));
            if g == group_id {
                r.push(u);
            }
            i = i + 1;
        }
        assert(self@.members.take(i as int) =~= self@.members);
        r
    }

    fn copy_debts(&self) -> (r: Vec<Debt>)
        ensures
            r@.map_values(|d: Debt| d@) == self@.debts,
    {
        let mut r: Vec<Debt> = Vec::new();
        let mut i: usize = 0;
        while i < self.debts.len()
            invariant
                0 <= i <= self.debts@.len(),
                r@.len() == i,
                forall|j: int| 0 <= j < i ==> r@[j]@ == self.debts@[j]@,
            decreases self.debts@.len() - i,
        {
            let d = &self.debts[i];
            r.push(Debt {
                id: d.id,
                from_id: d.from_id,
                to_id: d.to_id,
                group_id: d.group_id,
                amount: d.amount,
                due_date: d.due_date.clone(),
                description: d.description.clone(),
                confirmed_by_debtor: d.confirmed_by_debtor,
                confirmed_by_creditor: d.confirmed_by_creditor,
                settled: d.settled,
            });
            i = i + 1;
        }
        assert(r@.map_values(|d: Debt| d@) =~= self@.debts);
        r
    }

    /// Records an expense of `amount` hundredths paid by `payer_id` in
    /// `group_id`, after checking the due date and the amount.
    pub fn add_expenses(&mut self, payer_id: i32, group_id: i32, amount: i64, description: &str, due_date: &str) -> (r: Result<(), LedgerError>)
        requires
            old(self).wf(),
            old(self)@.next_debt_id + old(self)@.members.len() < i32::MAX,
        ensures
            final(self).wf(),
            match expense_added(old(self)@, payer_id, group_id, amount, description@, due_date@) {
                Ok(m) => r is Ok && final(self)@ == m,
                Err(e) => r == Err::<(), LedgerError>(e) && final(self)@ == old(self)@,
            },
    {
        if !is_valid_due_date(due_date) {
            return Err(LedgerError::InvalidDate);
        }
        if amount <= 0 {
            return Err(LedgerError::InvalidAmount);
        }
        self.share_expense(payer_id, group_id, amount as u64, description, due_date)
    }

    /// Shares an expense of `amount` hundredths paid by `payer_id` among the
    /// members of `group_id`: every other member comes to owe the payer an
    /// equal share. Either all shares are folded in or, on an error, none.
    pub fn share_expense(&mut self, payer_id: i32, group_id: i32, amount: u64, description: &str, due_date: &str) -> (r: Result<(), LedgerError>)
        requires
            old(self).wf(),
            old(self)@.next_debt_id + old(self)@.members.len() < i32::MAX,
        ensures
            final(self).wf(),
            match expense_shared(old(self)@, payer_id, group_id, amount as nat, description@, due_date@) {
                Ok(m) => r is Ok && final(self)@ == m,
                Err(e) => r == Err::<(), LedgerError>(e) && final(self)@ == old(self)@,
            },
    {
        let members = self.members_of(group_id);
        let n = members.len();
        if n == 0 {
            return Err(LedgerError::EmptyGroup);
        }
        let share = split_share(amount, n as u64);
        if share == 0 {
            return Ok(());
        }
        proof {
            lemma_group_members_len(self@.members, group_id);
        }
        let ghost start = self@;
        let saved_debts = self.copy_debts();
        let saved_next = self.next_debt_id;
        let mut i: usize = 0;
        assert(members@.take(0) =~= Seq::<i32>::empty());
        while i < n
            invariant
                self.wf(),
                n == members@.len(),
                members@ == group_members(start.members, group_id),
                members@.len() <= start.members.len(),
                start.next_debt_id + start.members.len() < i32::MAX,
                start == old(self)@,
                saved_debts@.map_values(|d: Debt| d@) == start.debts,
                saved_next as int == start.next_debt_id,
                0 <= i <= n,
                spread(start, members@.take(i as int), payer_id, group_id, share, due_date@, description@) == Ok::<LedgerModel, LedgerError>(self@),
                self@.next_debt_id <= start.next_debt_id + i,
                self@.members == start.members,
                self@.accounts == start.accounts,
                self@.next_user_id == start.next_user_id,
                self@.groups == start.groups,
                self@.next_group_id == start.next_group_id,
                self@.notes == start.notes,
                self@.next_note_id == start.next_note_id,
                share > 0,
                model_wf(start),
                share as nat == share_of(amount as nat, n as nat),
            decreases n - i,
        {
            let member = members[i];
            let ghost before = self@;
            assert(members@.take(i as int + 1).drop_last() =~= members@.take(i as int));
            assert(members@.take(i as int + 1).last() == member);
            if member != payer_id {
                match self.add_or_update_debt(member, payer_id, group_id, share, due_date, description) {
                    Ok(()) => {},
                    Err(e) => {
                        proof {
                            lemma_spread_err_extends(start, members@, i as int + 1, payer_id, group_id, share, due_date@, description@);
                        }
                        self.debts = saved_debts;
                        self.next_debt_id = saved_next;
                        assert(self@.debts =~= start.debts);
                        assert(self@ == start);
                        return Err(e);
                    },
                }
            }
            i = i + 1;
        }
        assert(members@.take(n as int) =~= members@);
        Ok(())
    }

    fn find_debt(&self, id: i32) -> (r: Option<usize>)
        ensures
            match r {
                Some(k) => find_debt(self@.debts, id as int) == Some(k as int),
                None => find_debt(self@.debts, id as int) is None,
            },
    {
        let mut i: usize = 0;
        while i < self.debts.len()
            invariant
                0 <= i <= self.debts@.len(),
                find_debt(self@.debts, id as int) == find_debt_from(self@.debts, i as int, id as int),
            decreases self.debts@.len() - i,
        {
            assert(self@.debts[i as int] == self.debts@[i as int]@);
            if self.debts[i].id == id {
                return Some(i);
            }
            i = i + 1;
        }
        None
    }

    fn find_account(&self, id: i32) -> (r: Option<usize>)
        ensures
            match r {
                Some(k) => find_account(self@.accounts, id) == Some(k as int),
                None => find_account(self@.accounts, id) is None,
            },
    {
        let mut i: usize = 0;
        while i < self.accounts.len()
            invariant
                0 <= i <= self.accounts@.len(),
                find_account(self@.accounts, id) == find_account_from(self@.accounts, i as int, id),
            decreases self.accounts@.len() - i,
        {
            assert(self@.accounts[i as int] == self.accounts@[i as int]@);
            if self.accounts[i].id == id {
                return Some(i);
            }
            i = i + 1;
        }
        None
    }

    fn set_flags(&mut self, k: usize, by_debtor: bool, by_creditor: bool, settled: bool)
        requires
            old(self).wf(),
            k < old(self)@.debts.len(),
        ensures
            final(self).wf(),
            final(self)@ == (LedgerModel {
                debts: old(self)@.debts.update(k as int, DebtView {
                    by_debtor,
                    by_creditor,
                    settled,
                    ..old(self)@.debts[k as int]
                }),
                ..old(self)@
            }),
    {
        let old_debt = &self.debts[k];
        let d = Debt {
            id: old_debt.id,
            from_id: old_debt.from_id,
            to_id: old_debt.to_id,
            group_id: old_debt.group_id,
            amount: old_debt.amount,
            due_date: old_debt.due_date.clone(),
            description: old_debt.description.clone(),
            confirmed_by_debtor: by_debtor,
            confirmed_by_creditor: by_creditor,
            settled,
        };
        self.debts.set(k, d);
        assert(self@.debts =~= old(self)@.debts.update(k as int, DebtView {
            by_debtor,
            by_creditor,
            settled,
            ..old(self)@.debts[k as int]
        }));
    }

    fn apply_loyalty(&mut self, user: i32, p: Punctuality)
        requires
            old(self).wf(),
        ensures
            final(self).wf(),
            final(self)@ == loyalty_applied(old(self)@, user, p),
    {
        let found = self.find_account(user);
        proof {
            lemma_find_account_from(self@.accounts, 0, user);
        }
        match found {
            None => {},
            Some(j) => {
                let a = &self.accounts[j];
                let l = record_settlement(Loyalty { on_time_payments: a.on_time_payments, loyal_payer: a.loyal_payer }, p);
                let updated = Account {
                    id: a.id,
                    username: a.username.clone(),
                    email: a.email.clone(),
                    password_hash: a.password_hash.clone(),
                    on_time_payments: l.on_time_payments,
                    loyal_payer: l.loyal_payer,
                };
                assert(self@.accounts[j as int] == self.accounts@[j as int]@);
                self.accounts.set(j, updated);
                assert(self@.accounts =~= loyalty_applied(old(self)@, user, p).accounts);
            },
        }
    }

    /// `user_id` confirms the balance `debt_id` on the date `today`
    /// (`YYYY-MM-DD`). When both parties have confirmed, the balance is
    /// settled and the debtor's record of on-time settlements is updated.
    pub fn payment_confirmation(&mut self, user_id: i32, debt_id: i32, today: &str) -> (r: Result<SettlementOutcome, LedgerError>)
        requires
            old(self).wf(),
        ensures
            final(self).wf(),
            match confirmation_result(old(self)@, user_id, debt_id, today@) {
                Ok(res) => r == Ok::<SettlementOutcome, LedgerError>(res.1) && final(self)@ == res.0,
                Err(e) => r == Err::<SettlementOutcome, LedgerError>(e) && final(self)@ == old(self)@,
            },
    {
        let k = match self.find_debt(debt_id) {
            Some(k) => k,
            None => return Err(LedgerError::UnknownDebt),
        };
        proof {
            lemma_find_debt(self@.debts, debt_id as int);
        }
        assert(self@.debts[k as int] == self.debts@[k as int]@);
        let d = &self.debts[k];
        if d.settled {
            return Err(LedgerError::AlreadySettled);
        }
        let flags = match confirm_flags(d.from_id, d.to_id, d.confirmed_by_debtor, d.confirmed_by_creditor, user_id) {
            Ok(f) => f,
            Err(e) => return Err(e),
        };
        if flags.0 && flags.1 {
            let p = punctuality(d.due_date.as_str(), today);
            let debtor = d.from_id;
            self.set_flags(k, true, true, true);
            self.apply_loyalty(debtor, p);
            Ok(SettlementOutcome::Settled)
        } else {
            self.set_flags(k, flags.0, flags.1, false);
            Ok(SettlementOutcome::AwaitingOtherParty)
        }
    }

    /// Refreshes and delivers the notifications of `user_id` on the date
    /// `today` (`YYYY-MM-DD`): every overdue balance the user owes gives a new
    /// notification, notifications already shown are deleted, and the user's
    /// remaining ones are returned, oldest first, and marked shown.
    pub fn get_user_notifications(&mut self, user_id: i32, today: &str) -> (r: Result<Vec<Notification>, LedgerError>)
        requires
            old(self).wf(),
            old(self)@.next_note_id + old(self)@.debts.len() <= i32::MAX,
        ensures
            final(self).wf(),
            final(self)@ == refreshed(old(self)@, user_id, today@).0,
            match r {
                Ok(v) => refreshed(old(self)@, user_id, today@).1.len() > 0 && delivers(v@, refreshed(old(self)@, user_id, today@).1),
                Err(e) => e == LedgerError::NoNotifications && refreshed(old(self)@, user_id, today@).1.len() == 0,
            },
    {
        let ghost start = self@;
        let ghost fresh = swept(start.debts, user_id, today@, start.next_note_id);
        proof {
            lemma_swept_len(start.debts, user_id, today@, start.next_note_id);
        }
        // sweep
        let mut i: usize = 0;
        while i < self.debts.len()
            invariant
                start == old(self)@,
                model_wf(start),
                start.next_note_id + start.debts.len() <= i32::MAX,
                0 <= i <= self.debts@.len(),
                self@.debts == start.debts,
                self@.next_debt_id == start.next_debt_id,
                self@.accounts == start.accounts,
                self@.next_user_id == start.next_user_id,
                self@.groups == start.groups,
                self@.next_group_id == start.next_group_id,
                self@.members == start.members,
                self@.notes == start.notes + swept(start.debts.take(i as int), user_id, today@, start.next_note_id),
                self@.next_note_id == start.next_note_id + swept(start.debts.take(i as int), user_id, today@, start.next_note_id).len(),
                self.wf(),
            decreases self.debts@.len() - i,
        {
            proof {
                lemma_swept_len(start.debts.take(i as int), user_id, today@, start.next_note_id);
                assert(start.debts.take(i as int + 1).drop_last() =~= start.debts.take(i as int));
            }
            assert(self@.debts[i as int] == self.debts@[i as int]@);
            let d = &self.debts[i];
            if d.from_id == user_id && !d.settled && !d.due_date.as_str().is_empty() && text_less(d.due_date.as_str(), today) {
                let message = overdue_notice(d.amount, d.due_date.as_str());
                let note = Note { id: self.next_note_id, user_id, message, shown: false };
                let ghost before = self@.notes;
                self.notes.push(note);
                self.next_note_id = self.next_note_id + 1;
                assert(self@.notes =~= before.push(note@));
                assert(self@.notes =~= start.notes + swept(start.debts.take(i as int + 1), user_id, today@, start.next_note_id));
            }
            i = i + 1;
        }
        assert(start.debts.take(i as int) =~= start.debts);
        let ghost all = self@.notes;
        assert(all == start.notes + fresh);
        // drop what was already shown
        let mut kept: Vec<Note> = Vec::new();
        let mut i: usize = 0;
        while i < self.notes.len()
            invariant
                0 <= i <= self.notes@.len(),
                self@.notes == all,
                self.wf(),
                kept@.map_values(|n: Note| n@) == pruned(all.take(i as int), user_id),
                forall|k: int| 0 <= k < kept@.len() ==> 1 <= #[trigger] kept@[k].id < self@.next_note_id,
                forall|k: int, l: int| 0 <= k < l < kept@.len() ==> kept@[k].id < kept@[l].id,
                i < self.notes@.len() && kept@.len() > 0 ==> kept@.last().id < all[i as int].id,
            decreases self.notes@.len() - i,
        {
            assert(all.take(i as int + 1).drop_last() =~= all.take(i as int));
            assert(self@.notes[i as int] == self.notes@[i as int]@);
            let n = &self.notes[i];
            if !(n.user_id == user_id && n.shown) {
                let ghost before = kept@;
                kept.push(Note { id: n.id, user_id: n.user_id, message: n.message.clone(), shown: n.shown });
                assert(kept@.map_values(|n: Note| n@) =~= before.map_values(|n: Note| n@).push(all[i as int]));
            } else {
                assert(kept@.map_values(|n: Note| n@) =~= pruned(all.take(i as int + 1), user_id));
            }
            i = i + 1;
        }
        assert(all.take(i as int) =~= all);
        self.notes = kept;
        let ghost kept_view = self@.notes;
        assert(kept_view == pruned(start.notes + fresh, user_id));
        assert(self.wf());
        let ghost pruned_model = self@;
        // deliver
        let mut out: Vec<Notification> = Vec::new();
        let mut i: usize = 0;
        while i < self.notes.len()
            invariant
                0 <= i <= self.notes@.len(),
                self@.notes.len() == kept_view.len(),
                forall|k: int| 0 <= k < i ==> #[trigger] self@.notes[k] == mark_shown(kept_view[k], user_id),
                forall|k: int| i <= k < kept_view.len() ==> #[trigger] self@.notes[k] == kept_view[k],
                delivers(out@, unshown(kept_view.take(i as int), user_id)),
                self@ == (LedgerModel { notes: self@.notes, ..pruned_model }),
                pruned_model.notes == kept_view,
                model_wf(pruned_model),
            decreases self.notes@.len() - i,
        {
            assert(kept_view.take(i as int + 1).drop_last() =~= kept_view.take(i as int));
            assert(self@.notes[i as int] == self.notes@[i as int]@);
            let n = &self.notes[i];
            if n.user_id == user_id {
                if !n.shown {
                    out.push(Notification::new(n.id, n.message.clone()));
                }
                let marked = Note { id: n.id, user_id: n.user_id, message: n.message.clone(), shown: true };
                let ghost before = self@.notes;
                self.notes.set(i, marked);
                assert(self@.notes =~= before.update(i as int, mark_shown(kept_view[i as int], user_id)));
            }
            assert(self@.notes[i as int] == mark_shown(kept_view[i as int], user_id));
            i = i + 1;
        }
        assert(kept_view.take(i as int) =~= kept_view);
        assert(self@.notes =~= kept_view.map_values(|n: NoteView| mark_shown(n, user_id)));
        assert(self.wf());
        if out.len() == 0 {
            Err(LedgerError::NoNotifications)
        } else {
            Ok(out)
        }
    }

    fn find_group(&self, id: i32) -> (r: Option<usize>)
        ensures
            match r {
                Some(k) => find_group(self@.groups, id) == Some(k as int) && k < self@.groups.len(),
                None => find_group(self@.groups, id) is None,
            },
    {
        proof {
            lemma_find_group_from(self@.groups, 0, id);
        }
        let mut i: usize = 0;
        while i < self.groups.len()
            invariant
                0 <= i <= self.groups@.len(),
                find_group(self@.groups, id) == find_group_from(self@.groups, i as int, id),
            decreases self.groups@.len() - i,
        {
            assert(self@.groups[i as int] == (self.groups@[i as int].0.id, self.groups@[i as int].0.groupname@, self.groups@[i as int].1));
            if self.groups[i].0.id == id {
                return Some(i);
            }
            i = i + 1;
        }
        None
    }

    fn insertion_point(out: &Vec<Expenses>, due: &str) -> (p: usize)
        ensures
            p <= out@.len(),
            forall|q: int| 0 <= q < p ==> !text_lt(due@, #[trigger] out@[q]@.due),
            p < out@.len() ==> text_lt(due@, out@[p as int]@.due),
    {
        let mut p: usize = 0;
        while p < out.len()
            invariant
                p <= out@.len(),
                forall|q: int| 0 <= q < p ==> !text_lt(due@, #[trigger] out@[q]@.due),
            decreases out@.len() - p,
        {
            if text_less(due, out[p].due_date.as_str()) {
                return p;
            }
            p = p + 1;
        }
        p
    }

    /// The unsettled balances of `user_id` as debtor (`is_debt`) or as
    /// creditor, each with the other party's name and the group's name,
    /// ordered by due date, earliest first.
    pub fn get_user_debts_or_credits(&self, user_id: i32, is_debt: bool) -> (r: Result<Vec<Expenses>, LedgerError>)
        ensures
            match r {
                Ok(v) => {
                    &&& entries(self@, self@.debts, user_id, is_debt).len() > 0
                    &&& v@.map_values(|e: Expenses| e@).to_multiset() =~= entries(self@, self@.debts, user_id, is_debt).to_multiset()
                    &&& by_due_date(v@.map_values(|e: Expenses| e@))
                },
                Err(e) => e == LedgerError::NoObligations && entries(self@, self@.debts, user_id, is_debt).len() == 0,
            },
    {
        broadcast use vstd::seq_lib::group_to_multiset_ensures;
        let ghost m = self@;
        let mut out: Vec<Expenses> = Vec::new();
        let mut i: usize = 0;
        while i < self.debts.len()
            invariant
                m == self@,
                0 <= i <= self.debts@.len(),
                out@.map_values(|e: Expenses| e@).to_multiset() =~= entries(m, m.debts.take(i as int), user_id, is_debt).to_multiset(),
                out@.len() == entries(m, m.debts.take(i as int), user_id, is_debt).len(),
                by_due_date(out@.map_values(|e: Expenses| e@)),
            decreases self.debts@.len() - i,
        {
            assert(m.debts.take(i as int + 1).drop_last() =~= m.debts.take(i as int));
            assert(m.debts[i as int] == self.debts@[i as int]@);
            let d = &self.debts[i];
            let listed = !d.settled && (if is_debt { d.from_id == user_id } else { d.to_id == user_id });
            if listed {
                let other = if is_debt { d.to_id } else { d.from_id };
                let a = self.find_account(other);
                proof {
                    lemma_find_account_from(m.accounts, 0, other);
                }
                let g = self.find_group(d.group_id);
                match (a, g) {
                    (Some(a), Some(g)) => {
                        assert(m.accounts[a as int] == self.accounts@[a as int]@);
                        assert(m.groups[g as int] == (self.groups@[g as int].0.id, self.groups@[g as int].0.groupname@, self.groups@[g as int].1));
                        let e = Expenses::new(
                            d.id,
                            self.accounts[a].username.clone(),
                            d.amount,
                            self.groups[g].0.groupname.clone(),
                            d.due_date.clone(),
                            d.description.clone(),
                        );
                        assert(e@ == entry_of(m, m.debts[i as int], is_debt)->0);
                        let p = Ledger::insertion_point(&out, d.due_date.as_str());
                        let ghost before = out@.map_values(|e: Expenses| e@);
                        out.insert(p, e);
                        let ghost after = out@.map_values(|e: Expenses| e@);
                        assert(after =~= before.insert(p as int, e@));
                        proof {
                            vstd::seq_lib::to_multiset_insert(before, p as int, e@);
                            vstd::seq_lib::to_multiset_build(entries(m, m.debts.take(i as int), user_id, is_debt), e@);
                            assert forall|x: int, y: int| 0 <= x < y < after.len() implies !text_lt(#[trigger] after[y].due, #[trigger] after[x].due) by {
                                if x < p && y == p {
                                } else if x == p && y > p {
                                    if text_lt(after[y].due, e@.due) {
                                        if y == p + 1 {
                                            lemma_text_lt_transitive(e@.due, before[p as int].due, e@.due);
                                            lemma_text_lt_irreflexive(e@.due);
                                        } else {
                                            lemma_text_lt_transitive(after[y].due, e@.due, before[p as int].due);
                                        }
                                    }
                                }
                            }
                        }
                    },
                    _ => {},
                }
            }
            i = i + 1;
        }
        assert(m.debts.take(i as int) =~= m.debts);
        if out.len() == 0 {
            Err(LedgerError::NoObligations)
        } else {
            Ok(out)
        }
    }

    /// The stored balances, in storage order.
    pub fn debts(&self) -> (r: &Vec<Debt>)
        ensures
            r@.map_values(|d: Debt| d@) == self@.debts,
    {
        &self.debts
    }

    /// The registered users, in registration order.
    pub fn accounts(&self) -> (r: &Vec<Account>)
        ensures
            r@.map_values(|a: Account| a@) == self@.accounts,
    {
        &self.accounts
    }

    /// The stored notifications, oldest first.
    pub fn notes(&self) -> (r: &Vec<Note>)
        ensures
            r@.map_values(|n: Note| n@) == self@.notes,
    {
        &self.notes
    }

    fn find_email(&self, email: &str) -> (r: Option<usize>)
        ensures
            match r {
                Some(k) => find_email(self@.accounts, email@) == Some(k as int) && k < self@.accounts.len(),
                None => find_email(self@.accounts, email@) is None,
            },
    {
        proof {
            lemma_find_email_from(self@.accounts, 0, email@);
        }
        let target = String::from_str(email);
        let mut i: usize = 0;
        while i < self.accounts.len()
            invariant
                0 <= i <= self.accounts@.len(),
                target@ == email@,
                find_email(self@.accounts, email@) == find_email_from(self@.accounts, i as int, email@),
            decreases self.accounts@.len() - i,
        {
            assert(self@.accounts[i as int] == self.accounts@[i as int]@);
            if self.accounts[i].email == target {
                return Some(i);
            }
            i = i + 1;
        }
        None
    }

    fn name_in_use(&self, username: &str) -> (r: bool)
        ensures
            r == name_in_use(self@.accounts, username@),
    {
        let target = String::from_str(username);
        let mut i: usize = 0;
        while i < self.accounts.len()
            invariant
                0 <= i <= self.accounts@.len(),
                target@ == username@,
                forall|j: int| 0 <= j < i ==> #[trigger] self@.accounts[j].username != username@,
            decreases self.accounts@.len() - i,
        {
            assert(self@.accounts[i as int] == self.accounts@[i as int]@);
            if self.accounts[i].username == target {
                return true;
            }
            i = i + 1;
        }
        false
    }

    /// Registers a new user, whose password is stored as its Argon2 record
    /// with the B64 `salt`; the user gets the next free id.
    pub fn register_user(&mut self, username: &str, email: &str, password: &str, salt: &str) -> (r: Result<(), RegistrationError>)
        requires
            old(self).wf(),
            old(self)@.next_user_id < i32::MAX,
        ensures
            final(self).wf(),
            match registered(old(self)@, username@, email@, password.spec_bytes(), password.len() as nat, salt@) {
                Ok(m) => r is Ok && final(self)@ == m,
                Err(e) => r == Err::<(), RegistrationError>(e) && final(self)@ == old(self)@,
            },
    {
        let found = self.find_email(email);
        proof {
            lemma_find_email_from(self@.accounts, 0, email@);
        }
        let email_taken = found.is_some();
        let name_taken = self.name_in_use(username);
        match check_registration(email, password, email_taken, name_taken) {
            Err(e) => return Err(e),
            Ok(()) => {},
        }
        match password_record(password, salt) {
            None => Err(RegistrationError::HashingFailed),
            Some(h) => {
                let a = Account {
                    id: self.next_user_id,
                    username: String::from_str(username),
                    email: String::from_str(email),
                    password_hash: h,
                    on_time_payments: 0,
                    loyal_payer: false,
                };
                self.accounts.push(a);
                self.next_user_id = self.next_user_id + 1;
                assert(self@.accounts =~= old(self)@.accounts.push(a@));
                Ok(())
            },
        }
    }

    /// Logs in the user registered with `email` when `password` matches the
    /// stored record.
    pub fn login_user(&self, email: &str, password: &str) -> (r: Result<User, LoginError>)
        ensures
            match find_email(self@.accounts, email@) {
                None => r == Err::<User, LoginError>(LoginError::UnknownUser),
                Some(i) => match password_verdict(password.spec_bytes(), self@.accounts[i].password_hash) {
                    Err(e) => r == Err::<User, LoginError>(e),
                    Ok(_) => r is Ok && ({
                        let u = r->Ok_0;
                        &&& u.id == self@.accounts[i].id
                        &&& u.username@ == self@.accounts[i].username
                        &&& u.email@ == self@.accounts[i].email
                        &&& !u.loyal_payer
                    }),
                },
            },
    {
        let i = match self.find_email(email) {
            None => return Err(LoginError::UnknownUser),
            Some(i) => i,
        };
        assert(self@.accounts[i as int] == self.accounts@[i as int]@);
        let a = &self.accounts[i];
        match check_password(password, a.password_hash.as_str()) {
            Err(e) => Err(e),
            Ok(()) => Ok(User::new(a.id, a.username.clone(), a.email.clone())),
        }
    }

    fn is_member(&self, group_id: i32, user_id: i32) -> (r: bool)
        ensures
            r == self@.members.contains((group_id, user_id)),
    {
        let mut i: usize = 0;
        while i < self.members.len()
            invariant
                0 <= i <= self.members@.len(),
                forall|j: int| 0 <= j < i ==> self.members@[j] != (group_id, user_id),
            decreases self.members@.len() - i,
        {
            let (g, u) = self.members[i];
            if g == group_id && u == user_id {
                assert(self@.members[i as int] == (group_id, user_id));
                return true;
            }
            i = i + 1;
        }
        false
    }

    /// Creates a group owned by `owner_id` with the given members, and
    /// returns its id.
    pub fn create_group(&mut self, name: &str, owner_id: i32, members: &[i32]) -> (r: i32)
        requires
            old(self).wf(),
            old(self)@.next_group_id < i32::MAX,
        ensures
            final(self).wf(),
            final(self)@ == group_created(old(self)@, name@, owner_id, members@),
            r == old(self)@.next_group_id,
    {
        let id = self.next_group_id;
        let g = Group::new(id, String::from_str(name));
        self.groups.push((g, owner_id));
        self.next_group_id = id + 1;
        let ghost start = old(self)@;
        assert(self@.groups =~= start.groups.push((id, name@, owner_id)));
        let mut i: usize = 0;
        assert(members@.take(0) =~= Seq::<i32>::empty());
        while i < members.len()
            invariant
                0 <= i <= members@.len(),
                self.wf(),
                self@ == (LedgerModel {
                    members: joined(start.members, id, members@.take(i as int)),
                    groups: start.groups.push((id, name@, owner_id)),
                    next_group_id: start.next_group_id + 1,
                    ..start
                }),
            decreases members@.len() - i,
        {
            assert(members@.take(i as int + 1).drop_last() =~= members@.take(i as int));
            self.add_member(id, members[i]);
            i = i + 1;
        }
        assert(members@.take(i as int) =~= members@);
        id
    }

    /// The groups that `user_id` belongs to, in creation order.
    pub fn get_user_groups(&self, user_id: i32) -> (r: Result<Vec<Group>, LedgerError>)
        ensures
            match r {
                Ok(v) => {
                    &&& groups_of(self@.members, self@.groups, user_id).len() > 0
                    &&& v@.map_values(|g: Group| (g.id, g.groupname@)) == groups_of(self@.members, self@.groups, user_id)
                },
                Err(e) => e == LedgerError::NoGroups && groups_of(self@.members, self@.groups, user_id).len() == 0,
            },
    {
        let mut out: Vec<Group> = Vec::new();
        let mut i: usize = 0;
        while i < self.groups.len()
            invariant
                0 <= i <= self.groups@.len(),
                out@.map_values(|g: Group| (g.id, g.groupname@)) == groups_of(self@.members, self@.groups.take(i as int), user_id),
            decreases self.groups@.len() - i,
        {
            assert(self@.groups.take(i as int + 1).drop_last() =~= self@.groups.take(i as int));
            assert(self@.groups[i as int] == (self.groups@[i as int].0.id, self.groups@[i as int].0.groupname@, self.groups@[i as int].1));
            let gid = self.groups[i].0.id;
            if self.is_member(gid, user_id) {
                let ghost before = out@;
                let g = Group::new(gid, self.groups[i].0.groupname.clone());
                out.push(g);
                assert(out@.map_values(|g: Group| (g.id, g.groupname@)) =~= before.map_values(|g: Group| (g.id, g.groupname@)).push((gid, self@.groups[i as int].1)));
            }
            i = i + 1;
        }
        assert(self@.groups.take(i as int) =~= self@.groups);
        if out.len() == 0 {
            Err(LedgerError::NoGroups)
        } else {
            Ok(out)
        }
    }

    /// The user with the given id.
    pub fn get_user_by_id(&self, user_id: i32) -> (r: Result<User, LedgerError>)
        ensures
            match find_account(self@.accounts, user_id) {
                None => r == Err::<User, LedgerError>(LedgerError::UnknownUser),
                Some(i) => r is Ok && ({
                    let u = r->Ok_0;
                    &&& u.id == user_id
                    &&& u.username@ == self@.accounts[i].username
                    &&& u.email@ == self@.accounts[i].email
                    &&& !u.loyal_payer
                }),
            },
    {
        let found = self.find_account(user_id);
        proof {
            lemma_find_account_from(self@.accounts, 0, user_id);
        }
        match found {
            None => Err(LedgerError::UnknownUser),
            Some(i) => {
                assert(self@.accounts[i as int] == self.accounts@[i as int]@);
                let a = &self.accounts[i];
                Ok(User::new(a.id, a.username.clone(), a.email.clone()))
            },
        }
    }

    /// The users whose name or e-mail contains `query`, ignoring the case of
    /// ASCII letters, in registration order.
    pub fn search_users(&self, query: &str) -> (r: Result<Vec<User>, LedgerError>)
        ensures
            match r {
                Ok(v) => {
                    let f = found_users(self@.accounts, query@);
                    &&& f.len() > 0
                    &&& v@.len() == f.len()
                    &&& forall|k: int| 0 <= k < v@.len() ==> {
                        &&& (#[trigger] v@[k]).id == f[k].id
                        &&& v@[k].username@ == f[k].username
                        &&& v@[k].email@ == f[k].email
                        &&& v@[k].loyal_payer == f[k].loyal
                    }
                },
                Err(e) => e == LedgerError::NoSuchUser && found_users(self@.accounts, query@).len() == 0,
            },
    {
        let mut out: Vec<User> = Vec::new();
        let mut i: usize = 0;
        while i < self.accounts.len()
            invariant
                0 <= i <= self.accounts@.len(),
                ({
                    let f = found_users(self@.accounts.take(i as int), query@);
                    &&& out@.len() == f.len()
                    &&& forall|k: int| 0 <= k < out@.len() ==> {
                        &&& (#[trigger] out@[k]).id == f[k].id
                        &&& out@[k].username@ == f[k].username
                        &&& out@[k].email@ == f[k].email
                        &&& out@[k].loyal_payer == f[k].loyal
                    }
                }),
            decreases self.accounts@.len() - i,
        {
            assert(self@.accounts.take(i as int + 1).drop_last() =~= self@.accounts.take(i as int));
            assert(self@.accounts[i as int] == self.accounts@[i as int]@);
            let a = &self.accounts[i];
            if occurs(a.username.as_str(), query) || occurs(a.email.as_str(), query) {
                out.push(User::from_loyal_payer(a.id, a.username.clone(), a.email.clone(), a.loyal_payer));
            }
            i = i + 1;
        }
        assert(self@.accounts.take(i as int) =~= self@.accounts);
        if out.len() == 0 {
            Err(LedgerError::NoSuchUser)
        } else {
            Ok(out)
        }
    }

}

} // verus!
