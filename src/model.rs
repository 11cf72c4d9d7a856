use vstd::prelude::*;
use crate::auth::argon2_phc;
use crate::date::text_lt;
use crate::debt::{DebtView, LedgerError, MergeStep, OpenDebt, merge_plan, open_of};
use crate::expenses::EntryView;
use crate::money::{amount_text, share_of};
use crate::notification::Notification;
use crate::search::occurs_in;
use crate::settlement::{Loyalty, Punctuality, SettlementOutcome, confirmed_flags, loyalty_after, punctuality_of};
use crate::validate::{RegistrationError, due_date_accepted, registration_verdict};

verus! {

pub struct AccountView {
    pub id: i32,
    pub username: Seq<char>,
    pub email: Seq<char>,
    pub password_hash: Seq<char>,
    pub on_time: u64,
    pub loyal: bool,
}

pub struct NoteView {
    pub id: int,
    pub user: i32,
    pub message: Seq<char>,
    pub shown: bool,
}

/// The ledger's state: balances, users, groups with their members, and
/// notifications, in the order in which they were stored.
pub struct LedgerModel {
    pub debts: Seq<DebtView>,
    pub next_debt_id: int,
    pub accounts: Seq<AccountView>,
    pub next_user_id: int,
    pub groups: Seq<(i32, Seq<char>, i32)>,
    pub next_group_id: int,
    pub members: Seq<(i32, i32)>,
    pub notes: Seq<NoteView>,
    pub next_note_id: int,
}

/// Ids are positive, below the next id to hand out, and increasing in
/// storage order; every balance holds a positive amount.
pub open spec fn model_wf(m: LedgerModel) -> bool {
    &&& 1 <= m.next_debt_id <= i32::MAX
    &&& 1 <= m.next_note_id <= i32::MAX
    &&& 1 <= m.next_user_id <= i32::MAX
    &&& 1 <= m.next_group_id <= i32::MAX
    &&& forall|i: int| 0 <= i < m.debts.len() ==> {
        &&& 1 <= #[trigger] m.debts[i].id < m.next_debt_id
        &&& 0 < m.debts[i].amount <= u64::MAX
    }
    &&& forall|i: int, j: int| 0 <= i < j < m.debts.len() ==> m.debts[i].id < m.debts[j].id
    &&& forall|i: int| 0 <= i < m.notes.len() ==> 1 <= #[trigger] m.notes[i].id < m.next_note_id
    &&& forall|i: int, j: int| 0 <= i < j < m.notes.len() ==> m.notes[i].id < m.notes[j].id
}

/// An unsettled balance from `from` to `to` in `group`.
pub open spec fn open_match(d: DebtView, from: i32, to: i32, group: i32) -> bool {
    !d.settled && d.from == from && d.to == to && d.group == group
}

pub open spec fn find_open_from(s: Seq<DebtView>, i: int, from: i32, to: i32, group: i32) -> Option<int>
    decreases s.len() - i,
{
    if i < 0 || i >= s.len() {
        None
    } else if open_match(s[i], from, to, group) {
        Some(i)
    } else {
        find_open_from(s, i + 1, from, to, group)
    }
}

/// The position of the first unsettled balance from `from` to `to` in `group`.
pub open spec fn find_open(s: Seq<DebtView>, from: i32, to: i32, group: i32) -> Option<int> {
    find_open_from(s, 0, from, to, group)
}

pub open spec fn open_at(s: Seq<DebtView>, k: Option<int>) -> Option<OpenDebt> {
    match k {
        Some(i) => Some(open_of(s[i])),
        None => None,
    }
}

pub open spec fn index_of(k: Option<int>) -> int {
    match k {
        Some(i) => i,
        None => 0,
    }
}

/// A new unconfirmed, unsettled balance stored with the next id.
pub open spec fn with_debt(m: LedgerModel, from: i32, to: i32, group: i32, amount: nat, due: Seq<char>, desc: Seq<char>) -> LedgerModel {
    LedgerModel {
        debts: m.debts.push(DebtView {
            id: m.next_debt_id,
            from,
            to,
            group,
            amount,
            due,
            desc,
            by_debtor: false,
            by_creditor: false,
            settled: false,
        }),
        next_debt_id: m.next_debt_id + 1,
        ..m
    }
}

pub open spec fn without_debt(m: LedgerModel, k: int) -> LedgerModel {
    LedgerModel { debts: m.debts.remove(k), ..m }
}

/// The balance at `k` now holds `amount`, due date `due` and description `desc`.
pub open spec fn with_amount(m: LedgerModel, k: int, amount: nat, due: Seq<char>, desc: Seq<char>) -> LedgerModel {
    LedgerModel { debts: m.debts.update(k, DebtView { amount, due, desc, ..m.debts[k] }), ..m }
}

pub open spec fn apply_step(
    m: LedgerModel,
    step: MergeStep,
    same: Option<int>,
    rev: Option<int>,
    from: i32,
    to: i32,
    group: i32,
    due: Seq<char>,
    desc: Seq<char>,
) -> LedgerModel {
    match step {
        MergeStep::Raise { id, amount } => with_amount(m, index_of(same), amount as nat, due, desc),
        MergeStep::Open { amount } => with_debt(m, from, to, group, amount as nat, due, desc),
        MergeStep::Reduce { id, amount } => with_amount(m, index_of(rev), amount as nat, due, desc),
        MergeStep::Flip { id, amount } => with_debt(without_debt(m, index_of(rev)), from, to, group, amount as nat, due, desc),
        MergeStep::Cancel { id } => without_debt(m, index_of(rev)),
    }
}

/// The ledger after a share of `amount` owed by `from` to `to` in `group` is
/// folded in: added to the unconfirmed balance in the same direction, netted
/// against the unconfirmed balance in the reverse direction, or stored as a
/// new balance when the one found is confirmed by either side or there is none.
pub open spec fn merged(m: LedgerModel, from: i32, to: i32, group: i32, amount: u64, due: Seq<char>, desc: Seq<char>) -> Result<LedgerModel, LedgerError> {
    let same = find_open(m.debts, from, to, group);
    let rev = find_open(m.debts, to, from, group);
    match merge_plan(open_at(m.debts, same), open_at(m.debts, rev), amount) {
        Ok(step) => Ok(apply_step(m, step, same, rev, from, to, group, due, desc)),
        Err(e) => Err(e),
    }
}

pub proof fn lemma_find_open_from(s: Seq<DebtView>, i: int, from: i32, to: i32, group: i32)
    requires
        0 <= i <= s.len(),
    ensures
        match find_open_from(s, i, from, to, group) {
            Some(k) => i <= k < s.len() && open_match(s[k], from, to, group)
                && forall|j: int| i <= j < k ==> !open_match(#[trigger] s[j], from, to, group),
            None => forall|j: int| i <= j < s.len() ==> !open_match(#[trigger] s[j], from, to, group),
        },
    decreases s.len() - i,
{
    if i < s.len() {
        lemma_find_open_from(s, i + 1, from, to, group);
    }
}

/// What `find_open` returns: the first unsettled balance of the triple, if any.
pub proof fn lemma_find_open(s: Seq<DebtView>, from: i32, to: i32, group: i32)
    ensures
        match find_open(s, from, to, group) {
            Some(k) => 0 <= k < s.len() && open_match(s[k], from, to, group)
                && forall|j: int| 0 <= j < k ==> !open_match(#[trigger] s[j], from, to, group),
            None => forall|j: int| 0 <= j < s.len() ==> !open_match(#[trigger] s[j], from, to, group),
        },
{
    lemma_find_open_from(s, 0, from, to, group);
}

/// The members of `group`, in the order in which they joined.
pub open spec fn group_members(ms: Seq<(i32, i32)>, group: i32) -> Seq<i32>
    decreases ms.len(),
{
    if ms.len() == 0 {
        Seq::empty()
    } else {
        let rest = group_members(ms.drop_last(), group);
        if ms.last().0 == group {
            rest.push(ms.last().1)
        } else {
            rest
        }
    }
}

/// The ledger after each member but the payer has had a share folded in, in
/// the members' order; the first failing merge fails the whole.
pub open spec fn spread(
    m: LedgerModel,
    members: Seq<i32>,
    payer: i32,
    group: i32,
    share: u64,
    due: Seq<char>,
    desc: Seq<char>,
) -> Result<LedgerModel, LedgerError>
    decreases members.len(),
{
    if members.len() == 0 {
        Ok(m)
    } else {
        match spread(m, members.drop_last(), payer, group, share, due, desc) {
            Err(e) => Err(e),
            Ok(m2) => if members.last() == payer {
                Ok(m2)
            } else {
                merged(m2, members.last(), payer, group, share, due, desc)
            },
        }
    }
}

/// The ledger after an expense of `amount` hundredths paid by `payer` is
/// shared in `group`: each other member owes the payer the amount divided by
/// the number of members, the payer included. A group without members is
/// refused; a share that rounds down to nothing leaves the ledger as it is.
pub open spec fn expense_shared(m: LedgerModel, payer: i32, group: i32, amount: nat, desc: Seq<char>, due: Seq<char>) -> Result<LedgerModel, LedgerError> {
    let ms = group_members(m.members, group);
    if ms.len() == 0 {
        Err(LedgerError::EmptyGroup)
    } else {
        let share = share_of(amount, ms.len());
        if share == 0 {
            Ok(m)
        } else {
            spread(m, ms, payer, group, share as u64, due, desc)
        }
    }
}

/// The ledger after `payer` records an expense: the due date must be empty or
/// a date, and the amount positive; then the expense is shared.
pub open spec fn expense_added(m: LedgerModel, payer: i32, group: i32, amount: i64, desc: Seq<char>, due: Seq<char>) -> Result<LedgerModel, LedgerError> {
    if !due_date_accepted(due) {
        Err(LedgerError::InvalidDate)
    } else if amount <= 0 {
        Err(LedgerError::InvalidAmount)
    } else {
        expense_shared(m, payer, group, amount as nat, desc, due)
    }
}

pub proof fn lemma_spread_err_extends(
    m: LedgerModel,
    members: Seq<i32>,
    i: int,
    payer: i32,
    group: i32,
    share: u64,
    due: Seq<char>,
    desc: Seq<char>,
)
    requires
        0 <= i <= members.len(),
        spread(m, members.take(i), payer, group, share, due, desc) is Err,
    ensures
        spread(m, members, payer, group, share, due, desc) == spread(m, members.take(i), payer, group, share, due, desc),
    decreases members.len() - i,
{
    if i < members.len() {
        assert(members.take(i + 1).drop_last() =~= members.take(i));
        lemma_spread_err_extends(m, members, i + 1, payer, group, share, due, desc);
    } else {
        assert(members.take(i) =~= members);
    }
}

pub proof fn lemma_group_members_len(ms: Seq<(i32, i32)>, group: i32)
    ensures
        group_members(ms, group).len() <= ms.len(),
    decreases ms.len(),
{
    if ms.len() > 0 {
        lemma_group_members_len(ms.drop_last(), group);
    }
}

pub open spec fn find_debt_from(s: Seq<DebtView>, i: int, id: int) -> Option<int>
    decreases s.len() - i,
{
    if i < 0 || i >= s.len() {
        None
    } else if s[i].id == id {
        Some(i)
    } else {
        find_debt_from(s, i + 1, id)
    }
}

/// The position of the balance with the given id.
pub open spec fn find_debt(s: Seq<DebtView>, id: int) -> Option<int> {
    find_debt_from(s, 0, id)
}

pub open spec fn find_account_from(s: Seq<AccountView>, i: int, id: i32) -> Option<int>
    decreases s.len() - i,
{
    if i < 0 || i >= s.len() {
        None
    } else if s[i].id == id {
        Some(i)
    } else {
        find_account_from(s, i + 1, id)
    }
}

/// The position of the first account with the given id.
pub open spec fn find_account(s: Seq<AccountView>, id: i32) -> Option<int> {
    find_account_from(s, 0, id)
}

/// The ledger after `user` settles a balance with punctuality `p`.
pub open spec fn loyalty_applied(m: LedgerModel, user: i32, p: Punctuality) -> LedgerModel {
    match find_account(m.accounts, user) {
        None => m,
        Some(j) => {
            let a = m.accounts[j];
            let l = loyalty_after(Loyalty { on_time_payments: a.on_time, loyal_payer: a.loyal }, p);
            LedgerModel {
                accounts: m.accounts.update(j, AccountView { on_time: l.on_time_payments, loyal: l.loyal_payer, ..a }),
                ..m
            }
        },
    }
}

/// The ledger after `user` confirms balance `debt_id` on `today`. The
/// confirming party's flag is set; once both are set the balance is settled
/// and the debtor's settlement record is updated.
pub open spec fn confirmation_result(m: LedgerModel, user: i32, debt_id: i32, today: Seq<char>) -> Result<(LedgerModel, SettlementOutcome), LedgerError> {
    match find_debt(m.debts, debt_id as int) {
        None => Err(LedgerError::UnknownDebt),
        Some(k) => {
            let d = m.debts[k];
            if d.settled {
                Err(LedgerError::AlreadySettled)
            } else {
                match confirmed_flags(d.from, d.to, d.by_debtor, d.by_creditor, user) {
                    Err(e) => Err(e),
                    Ok(flags) => if flags.0 && flags.1 {
                        let m2 = LedgerModel {
                            debts: m.debts.update(k, DebtView { by_debtor: true, by_creditor: true, settled: true, ..d }),
                            ..m
                        };
                        Ok((loyalty_applied(m2, d.from, punctuality_of(d.due, today)), SettlementOutcome::Settled))
                    } else {
                        let m2 = LedgerModel {
                            debts: m.debts.update(k, DebtView { by_debtor: flags.0, by_creditor: flags.1, ..d }),
                            ..m
                        };
                        Ok((m2, SettlementOutcome::AwaitingOtherParty))
                    },
                }
            }
        },
    }
}

pub proof fn lemma_find_debt_from(s: Seq<DebtView>, i: int, id: int)
    requires
        0 <= i <= s.len(),
    ensures
        match find_debt_from(s, i, id) {
            Some(k) => i <= k < s.len() && s[k].id == id,
            None => forall|j: int| i <= j < s.len() ==> #[trigger] s[j].id != id,
        },
    decreases s.len() - i,
{
    if i < s.len() {
        lemma_find_debt_from(s, i + 1, id);
    }
}

pub proof fn lemma_find_debt(s: Seq<DebtView>, id: int)
    ensures
        match find_debt(s, id) {
            Some(k) => 0 <= k < s.len() && s[k].id == id,
            None => forall|j: int| 0 <= j < s.len() ==> #[trigger] s[j].id != id,
        },
{
    lemma_find_debt_from(s, 0, id);
}

pub proof fn lemma_find_account_from(s: Seq<AccountView>, i: int, id: i32)
    requires
        0 <= i <= s.len(),
    ensures
        match find_account_from(s, i, id) {
            Some(k) => i <= k < s.len() && s[k].id == id,
            None => forall|j: int| i <= j < s.len() ==> #[trigger] s[j].id != id,
        },
    decreases s.len() - i,
{
    if i < s.len() {
        lemma_find_account_from(s, i + 1, id);
    }
}

/// An unsettled balance owed by `user` whose due date is set and has passed.
pub open spec fn is_overdue(d: DebtView, user: i32, today: Seq<char>) -> bool {
    d.from == user && !d.settled && d.due.len() > 0 && text_lt(d.due, today)
}

pub open spec fn overdue_text(amount: nat, due: Seq<char>) -> Seq<char> {
    "Имате просрочен дълг от "@ + amount_text(amount) + " лв. със срок "@ + due
}

/// One new notification for each overdue balance of `user`, in storage
/// order, numbered from `first_id` on.
pub open spec fn swept(debts: Seq<DebtView>, user: i32, today: Seq<char>, first_id: int) -> Seq<NoteView>
    decreases debts.len(),
{
    if debts.len() == 0 {
        Seq::empty()
    } else {
        let rest = swept(debts.drop_last(), user, today, first_id);
        let d = debts.last();
        if is_overdue(d, user, today) {
            rest.push(NoteView { id: first_id + rest.len(), user, message: overdue_text(d.amount, d.due), shown: false })
        } else {
            rest
        }
    }
}

/// The notifications without those of `user` that were already shown.
pub open spec fn pruned(notes: Seq<NoteView>, user: i32) -> Seq<NoteView>
    decreases notes.len(),
{
    if notes.len() == 0 {
        Seq::empty()
    } else {
        let rest = pruned(notes.drop_last(), user);
        let n = notes.last();
        if n.user == user && n.shown {
            rest
        } else {
            rest.push(n)
        }
    }
}

/// The notifications of `user` not shown yet, oldest first.
pub open spec fn unshown(notes: Seq<NoteView>, user: i32) -> Seq<NoteView>
    decreases notes.len(),
{
    if notes.len() == 0 {
        Seq::empty()
    } else {
        let rest = unshown(notes.drop_last(), user);
        let n = notes.last();
        if n.user == user && !n.shown {
            rest.push(n)
        } else {
            rest
        }
    }
}

pub open spec fn mark_shown(n: NoteView, user: i32) -> NoteView {
    if n.user == user {
        NoteView { shown: true, ..n }
    } else {
        n
    }
}

/// The ledger after the notifications of `user` are refreshed on `today`,
/// and the notifications delivered: overdue balances are swept into new
/// notifications, those already shown are deleted, and the rest of the
/// user's are delivered and marked shown.
pub open spec fn refreshed(m: LedgerModel, user: i32, today: Seq<char>) -> (LedgerModel, Seq<NoteView>) {
    let fresh = swept(m.debts, user, today, m.next_note_id);
    let kept = pruned(m.notes + fresh, user);
    (
        LedgerModel {
            notes: kept.map_values(|n: NoteView| mark_shown(n, user)),
            next_note_id: m.next_note_id + fresh.len(),
            ..m
        },
        unshown(kept, user),
    )
}

pub open spec fn delivers(v: Seq<Notification>, s: Seq<NoteView>) -> bool {
    &&& v.len() == s.len()
    &&& forall|i: int| 0 <= i < v.len() ==> #[trigger] v[i].id as int == s[i].id && v[i].message@ == s[i].message
}

pub proof fn lemma_swept_len(debts: Seq<DebtView>, user: i32, today: Seq<char>, first_id: int)
    ensures
        swept(debts, user, today, first_id).len() <= debts.len(),
        forall|k: int| 0 <= k < swept(debts, user, today, first_id).len() ==>
            (#[trigger] swept(debts, user, today, first_id)[k]).id == first_id + k
            && swept(debts, user, today, first_id)[k].user == user,
    decreases debts.len(),
{
    if debts.len() > 0 {
        lemma_swept_len(debts.drop_last(), user, today, first_id);
    }
}

pub open spec fn find_group_from(s: Seq<(i32, Seq<char>, i32)>, i: int, id: i32) -> Option<int>
    decreases s.len() - i,
{
    if i < 0 || i >= s.len() {
        None
    } else if s[i].0 == id {
        Some(i)
    } else {
        find_group_from(s, i + 1, id)
    }
}

/// The position of the first group with the given id.
pub open spec fn find_group(s: Seq<(i32, Seq<char>, i32)>, id: i32) -> Option<int> {
    find_group_from(s, 0, id)
}

pub proof fn lemma_find_group_from(s: Seq<(i32, Seq<char>, i32)>, i: int, id: i32)
    requires
        0 <= i <= s.len(),
    ensures
        match find_group_from(s, i, id) {
            Some(k) => i <= k < s.len() && s[k].0 == id,
            None => forall|j: int| i <= j < s.len() ==> #[trigger] s[j].0 != id,
        },
    decreases s.len() - i,
{
    if i < s.len() {
        lemma_find_group_from(s, i + 1, id);
    }
}

/// An unsettled balance of `user`, as debtor or as creditor.
pub open spec fn lists(d: DebtView, user: i32, as_debtor: bool) -> bool {
    !d.settled && (if as_debtor { d.from == user } else { d.to == user })
}

/// The balance as its party sees it: the other party's name and the group's
/// name, when both are known to the ledger.
pub open spec fn entry_of(m: LedgerModel, d: DebtView, as_debtor: bool) -> Option<EntryView> {
    let other = if as_debtor { d.to } else { d.from };
    match find_account(m.accounts, other) {
        None => None,
        Some(a) => match find_group(m.groups, d.group) {
            None => None,
            Some(g) => Some(EntryView {
                id: d.id,
                username: m.accounts[a].username,
                amount: d.amount,
                group_name: m.groups[g].1,
                due: d.due,
                desc: d.desc,
            }),
        },
    }
}

/// The entries of `user`'s unsettled balances in the given role, in storage order.
pub open spec fn entries(m: LedgerModel, debts: Seq<DebtView>, user: i32, as_debtor: bool) -> Seq<EntryView>
    decreases debts.len(),
{
    if debts.len() == 0 {
        Seq::empty()
    } else {
        let rest = entries(m, debts.drop_last(), user, as_debtor);
        let d = debts.last();
        if lists(d, user, as_debtor) && entry_of(m, d, as_debtor) is Some {
            rest.push(entry_of(m, d, as_debtor)->0)
        } else {
            rest
        }
    }
}

/// Ordered by due date, earliest first.
pub open spec fn by_due_date(s: Seq<EntryView>) -> bool {
    forall|i: int, j: int| 0 <= i < j < s.len() ==> !text_lt(#[trigger] s[j].due, #[trigger] s[i].due)
}

pub open spec fn email_in_use(a: Seq<AccountView>, email: Seq<char>) -> bool {
    exists|i: int| 0 <= i < a.len() && (#[trigger] a[i]).email == email
}

pub open spec fn name_in_use(a: Seq<AccountView>, username: Seq<char>) -> bool {
    exists|i: int| 0 <= i < a.len() && (#[trigger] a[i]).username == username
}

/// The ledger after a registration: the checks of `registration_verdict`,
/// then the password's Argon2 record with `salt`, stored under the next user id.
pub open spec fn registered(
    m: LedgerModel,
    username: Seq<char>,
    email: Seq<char>,
    password: Seq<u8>,
    password_len: nat,
    salt: Seq<char>,
) -> Result<LedgerModel, RegistrationError> {
    match registration_verdict(email, password_len, email_in_use(m.accounts, email), name_in_use(m.accounts, username)) {
        Err(e) => Err(e),
        Ok(_) => match argon2_phc(password, salt) {
            None => Err(RegistrationError::HashingFailed),
            Some(h) => Ok(LedgerModel {
                accounts: m.accounts.push(AccountView {
                    id: m.next_user_id as i32,
                    username,
                    email,
                    password_hash: h,
                    on_time: 0,
                    loyal: false,
                }),
                next_user_id: m.next_user_id + 1,
                ..m
            }),
        },
    }
}

pub open spec fn find_email_from(s: Seq<AccountView>, i: int, email: Seq<char>) -> Option<int>
    decreases s.len() - i,
{
    if i < 0 || i >= s.len() {
        None
    } else if s[i].email == email {
        Some(i)
    } else {
        find_email_from(s, i + 1, email)
    }
}

/// The position of the first account with the given e-mail.
pub open spec fn find_email(s: Seq<AccountView>, email: Seq<char>) -> Option<int> {
    find_email_from(s, 0, email)
}

pub proof fn lemma_find_email_from(s: Seq<AccountView>, i: int, email: Seq<char>)
    requires
        0 <= i <= s.len(),
    ensures
        match find_email_from(s, i, email) {
            Some(k) => i <= k < s.len() && s[k].email == email,
            None => forall|j: int| i <= j < s.len() ==> #[trigger] s[j].email != email,
        },
    decreases s.len() - i,
{
    if i < s.len() {
        lemma_find_email_from(s, i + 1, email);
    }
}

/// The memberships after `users` join `group` in turn; a membership is listed once.
pub open spec fn joined(ms: Seq<(i32, i32)>, group: i32, users: Seq<i32>) -> Seq<(i32, i32)>
    decreases users.len(),
{
    if users.len() == 0 {
        ms
    } else {
        let prev = joined(ms, group, users.drop_last());
        if prev.contains((group, users.last())) {
            prev
        } else {
            prev.push((group, users.last()))
        }
    }
}

/// The ledger after `owner` creates the group `name` with the given members;
/// the group gets the next group id.
pub open spec fn group_created(m: LedgerModel, name: Seq<char>, owner: i32, users: Seq<i32>) -> LedgerModel {
    LedgerModel {
        groups: m.groups.push((m.next_group_id as i32, name, owner)),
        next_group_id: m.next_group_id + 1,
        members: joined(m.members, m.next_group_id as i32, users),
        ..m
    }
}

/// The groups (id and name) that `user` belongs to, in creation order.
pub open spec fn groups_of(members: Seq<(i32, i32)>, groups: Seq<(i32, Seq<char>, i32)>, user: i32) -> Seq<(i32, Seq<char>)>
    decreases groups.len(),
{
    if groups.len() == 0 {
        Seq::empty()
    } else {
        let rest = groups_of(members, groups.drop_last(), user);
        let g = groups.last();
        if members.contains((g.0, user)) {
            rest.push((g.0, g.1))
        } else {
            rest
        }
    }
}

/// The users whose name or e-mail contains `query`, ignoring the case of
/// ASCII letters, in registration order.
pub open spec fn found_users(accounts: Seq<AccountView>, query: Seq<char>) -> Seq<AccountView>
    decreases accounts.len(),
{
    if accounts.len() == 0 {
        Seq::empty()
    } else {
        let rest = found_users(accounts.drop_last(), query);
        let a = accounts.last();
        if occurs_in(a.username, query) || occurs_in(a.email, query) {
            rest.push(a)
        } else {
            rest
        }
    }
}

} // verus!
