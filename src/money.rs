//! Amounts are counted in hundredths of the currency unit.

use vstd::prelude::*;

verus! {

/// The decimal digit `d` (below ten) as a character.
pub open spec fn digit_char(d: nat) -> char {
    if d == 0 { '0' }
    else if d == 1 { '1' }
    else if d == 2 { '2' }
    else if d == 3 { '3' }
    else if d == 4 { '4' }
    else if d == 5 { '5' }
    else if d == 6 { '6' }
    else if d == 7 { '7' }
    else if d == 8 { '8' }
    else { '9' }
}

/// Decimal digits of `n`, most significant first, without leading zeros.
pub open spec fn decimal(n: nat) -> Seq<char>
    decreases n,
{
    if n < 10 {
        seq![digit_char(n)]
    } else {
        decimal(n / 10).push(digit_char(n % 10))
    }
}

/// An amount of hundredths written with exactly two decimal digits: `12345` is `123.45`.
pub open spec fn amount_text(cents: nat) -> Seq<char> {
    decimal(cents / 100) + seq!['.', digit_char((cents % 100) / 10), digit_char(cents % 10)]
}

fn digit_str(d: u64) -> (r: &'static str)
    requires
        d < 10,
    ensures
        r@ == seq![digit_char(d as nat)],
{
    proof {
        reveal_strlit("0");
        reveal_strlit("1");
        reveal_strlit("2");
        reveal_strlit("3");
        reveal_strlit("4");
        reveal_strlit("5");
        reveal_strlit("6");
        reveal_strlit("7");
        reveal_strlit("8");
        reveal_strlit("9");
    }
    if d == 0 { "0" }
    else if d == 1 { "1" }
    else if d == 2 { "2" }
    else if d == 3 { "3" }
    else if d == 4 { "4" }
    else if d == 5 { "5" }
    else if d == 6 { "6" }
    else if d == 7 { "7" }
    else if d == 8 { "8" }
    else { "9" }
}

/// Writes `n` in decimal.
pub fn decimal_text(n: u64) -> (r: String)
    ensures
        r@ == decimal(n as nat),
    decreases n,
{
    if n < 10 {
        String::from_str(digit_str(n))
    } else {
        let mut s = decimal_text(n / 10);
        s.append(digit_str(n % 10));
        s
    }
}

/// Writes an amount of hundredths with two decimal digits (`10000` gives `100.00`).
pub fn format_amount(cents: u64) -> (r: String)
    ensures
        r@ == amount_text(cents as nat),
{
    let mut s = decimal_text(cents / 100);
    proof {
        reveal_strlit(".");
    }
    s.append(".");
    s.append(digit_str((cents % 100) / 10));
    s.append(digit_str(cents % 10));
    assert(s@ =~= amount_text(cents as nat));
    s
}

/// The share of one member when `amount` hundredths are split evenly among
/// `members` people (the payer included), rounded down to whole hundredths.
pub open spec fn share_of(amount: nat, members: nat) -> nat
    recommends
        members > 0,
{
    amount / members
}

/// Splits `amount` evenly among `members` people; the remainder of the
/// division, at most `members - 1` hundredths, stays with the payer.
pub fn split_share(amount: u64, members: u64) -> (r: u64)
    requires
        members > 0,
    ensures
        r as nat == share_of(amount as nat, members as nat),
        (r as nat) * (members as nat) <= amount as nat,
        (amount as nat) < (r as nat) * (members as nat) + (members as nat),
{
    let r = amount / members;
    proof {
        vstd::arithmetic::div_mod::lemma_fundamental_div_mod(amount as int, members as int);
        vstd::arithmetic::div_mod::lemma_mod_bound(amount as int, members as int);
        assert((r as nat) * (members as nat) == (members as nat) * (r as nat)) by (nonlinear_arith);
    }
    r
}

} // verus!
