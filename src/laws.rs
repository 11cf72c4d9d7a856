use vstd::prelude::*;
use crate::debt::DebtView;
use crate::model::{
    LedgerModel, NoteView, confirmation_result, find_account, find_debt, is_overdue,
    lemma_find_account_from, lemma_find_debt, lemma_find_open, loyalty_applied, merged, model_wf,
    open_match, pruned, refreshed, swept, unshown, with_amount, with_debt, without_debt,
};
use crate::settlement::{Punctuality, SettlementOutcome, punctuality_of};

verus! {

/// Netting collapse: when the only unsettled balance between `a` and `b` in
/// group `g` is an unconfirmed one of `x` owed by `b` to `a`, folding in `x`
/// owed by `a` to `b` deletes it, and no unsettled balance between the two
/// remains in that group.
pub proof fn law_netting_collapse(m: LedgerModel, a: i32, b: i32, g: i32, x: u64, due: Seq<char>, desc: Seq<char>, k: int)
    requires
        model_wf(m),
        a != b,
        0 <= k < m.debts.len(),
        open_match(m.debts[k], b, a, g),
        !m.debts[k].by_debtor && !m.debts[k].by_creditor,
        m.debts[k].amount == x,
        forall|j: int| 0 <= j < m.debts.len() && j != k ==>
            !open_match(#[trigger] m.debts[j], a, b, g) && !open_match(m.debts[j], b, a, g),
    ensures
        merged(m, a, b, g, x, due, desc) == Ok::<LedgerModel, crate::debt::LedgerError>(without_debt(m, k)),
        forall|j: int| 0 <= j < without_debt(m, k).debts.len() ==>
            !open_match(#[trigger] without_debt(m, k).debts[j], a, b, g) && !open_match(without_debt(m, k).debts[j], b, a, g),
{
    lemma_find_open(m.debts, a, b, g);
    lemma_find_open(m.debts, b, a, g);
    assert(!open_match(m.debts[k], a, b, g));
}

/// Netting difference: when the only unsettled balance between `a` and `b`
/// in group `g` is an unconfirmed one of `x` owed by `b` to `a`, folding in
/// a larger `y` owed by `a` to `b` deletes it and leaves a single new balance
/// of `y - x` owed by `a` to `b`.
pub proof fn law_netting_difference(m: LedgerModel, a: i32, b: i32, g: i32, x: nat, y: u64, due: Seq<char>, desc: Seq<char>, k: int)
    requires
        model_wf(m),
        a != b,
        0 <= k < m.debts.len(),
        open_match(m.debts[k], b, a, g),
        !m.debts[k].by_debtor && !m.debts[k].by_creditor,
        m.debts[k].amount == x,
        x < y,
        forall|j: int| 0 <= j < m.debts.len() && j != k ==>
            !open_match(#[trigger] m.debts[j], a, b, g) && !open_match(m.debts[j], b, a, g),
    ensures
        merged(m, a, b, g, y, due, desc) == Ok::<LedgerModel, crate::debt::LedgerError>(
            with_debt(without_debt(m, k), a, b, g, (y - x) as nat, due, desc),
        ),
        ({
            let r = with_debt(without_debt(m, k), a, b, g, (y - x) as nat, due, desc);
            &&& r.debts.last().amount == y - x
            &&& open_match(r.debts.last(), a, b, g)
            &&& forall|j: int| 0 <= j < r.debts.len() - 1 ==>
                !open_match(#[trigger] r.debts[j], a, b, g) && !open_match(r.debts[j], b, a, g)
        }),
{
    lemma_find_open(m.debts, a, b, g);
    lemma_find_open(m.debts, b, a, g);
    assert(!open_match(m.debts[k], a, b, g));
}

/// Merge accumulation: with no unsettled balance between `a` and `b` in group
/// `g`, folding in `x` and then `y`, both owed by `a` to `b`, leaves one new
/// balance of `x + y`, carrying the later due date and description.
pub proof fn law_merge_accumulates(
    m: LedgerModel,
    a: i32,
    b: i32,
    g: i32,
    x: u64,
    y: u64,
    due1: Seq<char>,
    desc1: Seq<char>,
    due2: Seq<char>,
    desc2: Seq<char>,
)
    requires
        model_wf(m),
        m.next_debt_id < i32::MAX,
        x > 0,
        y > 0,
        x + y <= u64::MAX,
        forall|j: int| 0 <= j < m.debts.len() ==>
            !open_match(#[trigger] m.debts[j], a, b, g) && !open_match(m.debts[j], b, a, g),
    ensures
        ({
            let m1 = with_debt(m, a, b, g, x as nat, due1, desc1);
            &&& merged(m, a, b, g, x, due1, desc1) == Ok::<LedgerModel, crate::debt::LedgerError>(m1)
            &&& merged(m1, a, b, g, y, due2, desc2) == Ok::<LedgerModel, crate::debt::LedgerError>(
                with_amount(m1, m.debts.len() as int, (x + y) as nat, due2, desc2),
            )
            &&& with_amount(m1, m.debts.len() as int, (x + y) as nat, due2, desc2).debts == m.debts.push(DebtView {
                id: m.next_debt_id,
                from: a,
                to: b,
                group: g,
                amount: (x + y) as nat,
                due: due2,
                desc: desc2,
                by_debtor: false,
                by_creditor: false,
                settled: false,
            })
        }),
{
    lemma_find_open(m.debts, a, b, g);
    lemma_find_open(m.debts, b, a, g);
    let m1 = with_debt(m, a, b, g, x as nat, due1, desc1);
    lemma_find_open(m1.debts, a, b, g);
    assert(open_match(m1.debts[m.debts.len() as int], a, b, g));
    assert(m1.debts.update(m.debts.len() as int, DebtView {
        amount: (x + y) as nat,
        due: due2,
        desc: desc2,
        ..m1.debts[m.debts.len() as int]
    }) =~= m.debts.push(DebtView {
        id: m.next_debt_id,
        from: a,
        to: b,
        group: g,
        amount: (x + y) as nat,
        due: due2,
        desc: desc2,
        by_debtor: false,
        by_creditor: false,
        settled: false,
    }));
}

proof fn lemma_find_debt_same_ids(s: Seq<DebtView>, t: Seq<DebtView>, id: int)
    requires
        s.len() == t.len(),
        forall|j: int| 0 <= j < s.len() ==> #[trigger] s[j].id == t[j].id,
        forall|i: int, j: int| 0 <= i < j < s.len() ==> s[i].id < s[j].id,
    ensures
        find_debt(s, id) == find_debt(t, id),
{
    lemma_find_debt(s, id);
    lemma_find_debt(t, id);
    match find_debt(s, id) {
        Some(k) => {
            match find_debt(t, id) {
                Some(l) => {
                    assert(s[l].id == id);
                    if k < l {
                        assert(s[k].id < s[l].id);
                    } else if l < k {
                        assert(s[l].id < s[k].id);
                    }
                },
                None => {
                    assert(t[k].id == id);
                },
            }
        },
        None => {
            match find_debt(t, id) {
                Some(l) => {
                    assert(s[l].id == id);
                },
                None => {},
            }
        },
    }
}

/// Confirmation is idempotent per party: after a confirmation that leaves the
/// balance waiting for the other party, the same user confirming again
/// changes nothing; after one that settles it, confirming again is refused
/// as already settled, so the settlement and its effect on the debtor's
/// record happen once.
pub proof fn law_confirmation_idempotent(m: LedgerModel, user: i32, id: i32, today: Seq<char>)
    requires
        model_wf(m),
        confirmation_result(m, user, id, today) is Ok,
    ensures
        ({
            let (m1, outcome) = confirmation_result(m, user, id, today)->Ok_0;
            &&& outcome == SettlementOutcome::AwaitingOtherParty ==>
                confirmation_result(m1, user, id, today) == Ok::<(LedgerModel, SettlementOutcome), crate::debt::LedgerError>((m1, SettlementOutcome::AwaitingOtherParty))
            &&& outcome == SettlementOutcome::Settled ==>
                confirmation_result(m1, user, id, today) == Err::<(LedgerModel, SettlementOutcome), crate::debt::LedgerError>(crate::debt::LedgerError::AlreadySettled)
        }),
{
    lemma_find_debt(m.debts, id as int);
    let k = find_debt(m.debts, id as int)->0;
    let (m1, outcome) = confirmation_result(m, user, id, today)->Ok_0;
    assert(m1.debts.len() == m.debts.len());
    assert(forall|j: int| 0 <= j < m.debts.len() ==> #[trigger] m1.debts[j].id == m.debts[j].id);
    lemma_find_debt_same_ids(m.debts, m1.debts, id as int);
    if outcome == SettlementOutcome::AwaitingOtherParty {
        let d1 = m1.debts[k];
        assert(m1.debts.update(k, DebtView { by_debtor: d1.by_debtor, by_creditor: d1.by_creditor, ..d1 }) =~= m1.debts);
    }
}

/// A settlement updates the debtor's record exactly once: an on-time one
/// raises the on-time counter by one, a late one keeps the counter and
/// clears the loyal flag; no other user's record changes.
pub proof fn law_settlement_updates_debtor(m: LedgerModel, user: i32, id: i32, today: Seq<char>)
    requires
        model_wf(m),
        confirmation_result(m, user, id, today) is Ok,
        confirmation_result(m, user, id, today)->Ok_0.1 == SettlementOutcome::Settled,
    ensures
        ({
            let m1 = confirmation_result(m, user, id, today)->Ok_0.0;
            let d = m.debts[find_debt(m.debts, id as int)->0];
            let p = punctuality_of(d.due, today);
            &&& m1.accounts.len() == m.accounts.len()
            &&& forall|j: int| 0 <= j < m.accounts.len() && find_account(m.accounts, d.from) != Some(j) ==>
                #[trigger] m1.accounts[j] == m.accounts[j]
            &&& match find_account(m.accounts, d.from) {
                Some(j) => {
                    &&& (p == Punctuality::OnTime && m.accounts[j].on_time < u64::MAX ==>
                        m1.accounts[j].on_time == m.accounts[j].on_time + 1)
                    &&& (p == Punctuality::Late ==> m1.accounts[j].on_time == m.accounts[j].on_time && !m1.accounts[j].loyal)
                    &&& (p == Punctuality::NoDueDate ==> m1.accounts[j] == m.accounts[j])
                },
                None => m1.accounts == m.accounts,
            }
        }),
{
    lemma_find_debt(m.debts, id as int);
    let k = find_debt(m.debts, id as int)->0;
    let d = m.debts[k];
    let p = punctuality_of(d.due, today);
    let m2 = LedgerModel {
        debts: m.debts.update(k, DebtView { by_debtor: true, by_creditor: true, settled: true, ..d }),
        ..m
    };
    assert(confirmation_result(m, user, id, today)->Ok_0.0 == loyalty_applied(m2, d.from, p));
    lemma_find_account_from(m.accounts, 0, d.from);
}

proof fn lemma_swept_none(debts: Seq<DebtView>, user: i32, today: Seq<char>, first_id: int)
    requires
        forall|i: int| 0 <= i < debts.len() ==> !is_overdue(#[trigger] debts[i], user, today),
    ensures
        swept(debts, user, today, first_id).len() == 0,
    decreases debts.len(),
{
    if debts.len() > 0 {
        lemma_swept_none(debts.drop_last(), user, today, first_id);
    }
}

proof fn lemma_pruned_nothing_unshown(s: Seq<NoteView>, user: i32)
    requires
        forall|i: int| 0 <= i < s.len() && (#[trigger] s[i]).user == user ==> s[i].shown,
    ensures
        unshown(pruned(s, user), user).len() == 0,
    decreases s.len(),
{
    if s.len() > 0 {
        lemma_pruned_nothing_unshown(s.drop_last(), user);
        let p = pruned(s.drop_last(), user);
        let n = s.last();
        if !(n.user == user && n.shown) {
            assert(p.push(n).drop_last() =~= p);
        }
    }
}

proof fn lemma_unshown_nonempty(s: Seq<NoteView>, user: i32, i: int)
    requires
        0 <= i < s.len(),
        s[i].user == user,
        !s[i].shown,
    ensures
        unshown(s, user).len() > 0,
    decreases s.len(),
{
    if i < s.len() - 1 {
        lemma_unshown_nonempty(s.drop_last(), user, i);
        let r = unshown(s.drop_last(), user);
        let n = s.last();
        if n.user == user && !n.shown {
            assert(r.push(n).len() == r.len() + 1);
        }
    }
}

proof fn lemma_pruned_keeps_unshown(s: Seq<NoteView>, user: i32, i: int)
    requires
        0 <= i < s.len(),
        s[i].user == user,
        !s[i].shown,
    ensures
        exists|j: int| 0 <= j < pruned(s, user).len() && #[trigger] pruned(s, user)[j] == s[i],
    decreases s.len(),
{
    let p = pruned(s.drop_last(), user);
    if i < s.len() - 1 {
        lemma_pruned_keeps_unshown(s.drop_last(), user, i);
        let j = choose|j: int| 0 <= j < p.len() && #[trigger] p[j] == s.drop_last()[i];
        assert(s.drop_last()[i] == s[i]);
        if !(s.last().user == user && s.last().shown) {
            assert(pruned(s, user) == p.push(s.last()));
            assert(pruned(s, user)[j] == s[i]);
        } else {
            assert(pruned(s, user) == p);
            assert(pruned(s, user)[j] == s[i]);
        }
    } else {
        assert(pruned(s, user) == p.push(s.last()));
        assert(pruned(s, user)[p.len() as int] == s[i]);
    }
}

/// Delivery marks notifications shown: when `user` owes no overdue balance,
/// a first refresh delivers every notification of the user not shown yet
/// (there is at least one to deliver when one exists), and a second refresh
/// right after it delivers none.
pub proof fn law_second_fetch_empty(m: LedgerModel, user: i32, today: Seq<char>)
    requires
        model_wf(m),
        forall|i: int| 0 <= i < m.debts.len() ==> !is_overdue(#[trigger] m.debts[i], user, today),
    ensures
        (exists|i: int| 0 <= i < m.notes.len() && (#[trigger] m.notes[i]).user == user && !m.notes[i].shown)
            ==> refreshed(m, user, today).1.len() > 0,
        refreshed(refreshed(m, user, today).0, user, today).1.len() == 0,
{
    lemma_swept_none(m.debts, user, today, m.next_note_id);
    let m1 = refreshed(m, user, today).0;
    assert(m.notes + swept(m.debts, user, today, m.next_note_id) =~= m.notes);
    if exists|i: int| 0 <= i < m.notes.len() && (#[trigger] m.notes[i]).user == user && !m.notes[i].shown {
        let i = choose|i: int| 0 <= i < m.notes.len() && (#[trigger] m.notes[i]).user == user && !m.notes[i].shown;
        lemma_pruned_keeps_unshown(m.notes, user, i);
        let p = pruned(m.notes, user);
        let j = choose|j: int| 0 <= j < p.len() && #[trigger] p[j] == m.notes[i];
        lemma_unshown_nonempty(p, user, j);
    }
    lemma_swept_none(m1.debts, user, today, m1.next_note_id);
    assert(m1.notes + swept(m1.debts, user, today, m1.next_note_id) =~= m1.notes);
    assert(forall|i: int| 0 <= i < m1.notes.len() && (#[trigger] m1.notes[i]).user == user ==> m1.notes[i].shown);
    lemma_pruned_nothing_unshown(m1.notes, user);
}

} // verus!
