use vstd::prelude::*;

verus! {

pub open spec fn is_ascii_upper(c: char) -> bool {
    'A' <= c && c <= 'Z'
}

/// Two characters that are equal once ASCII letters are put in lower case.
pub open spec fn same_letter(a: char, b: char) -> bool {
    ||| a == b
    ||| is_ascii_upper(a) && (a as u32) + 32 == (b as u32)
    ||| is_ascii_upper(b) && (b as u32) + 32 == (a as u32)
}

/// `q` occurs in `s` at position `i`, ignoring the case of ASCII letters.
pub open spec fn matches_at(s: Seq<char>, q: Seq<char>, i: int) -> bool {
    &&& 0 <= i
    &&& i + q.len() <= s.len()
    &&& forall|j: int| 0 <= j < q.len() ==> same_letter(#[trigger] s[i + j], q[j])
}

/// `q` occurs somewhere in `s`, ignoring the case of ASCII letters.
pub open spec fn occurs_in(s: Seq<char>, q: Seq<char>) -> bool {
    exists|i: int| matches_at(s, q, i)
}

fn same_letter_exec(a: char, b: char) -> (r: bool)
    ensures
        r == same_letter(a, b),
{
    let x = a as u32;
    let y = b as u32;
    x == y || ('A' <= a && a <= 'Z' && x + 32 == y) || ('A' <= b && b <= 'Z' && y + 32 == x)
}

fn matches_here(s: &str, q: &str, i: usize) -> (r: bool)
    requires
        i + q@.len() <= s@.len(),
        s@.len() <= usize::MAX,
    ensures
        r == matches_at(s@, q@, i as int),
{
    let m = q.unicode_len();
    let mut j: usize = 0;
    while j < m
        invariant
            m == q@.len(),
            i + m <= s@.len(),
            s@.len() <= usize::MAX,
            j <= m,
            forall|jj: int| 0 <= jj < j ==> same_letter(#[trigger] s@[i + jj], q@[jj]),
        decreases m - j,
    {
        let a = s.get_char(i + j);
        let b = q.get_char(j);
        if !same_letter_exec(a, b) {
            assert(!same_letter(s@[i + j as int], q@[j as int]));
            return false;
        }
        j = j + 1;
    }
    true
}

/// Tells whether `q` occurs in `s`, ignoring the case of ASCII letters.
pub fn occurs(s: &str, q: &str) -> (r: bool)
    ensures
        r == occurs_in(s@, q@),
{
    let n = s.unicode_len();
    let m = q.unicode_len();
    if m > n {
        assert forall|i: int| !matches_at(s@, q@, i) by {}
        return false;
    }
    let mut i: usize = 0;
    while i <= n - m
        invariant
            n == s@.len(),
            m == q@.len(),
            m <= n,
            i <= n - m + 1,
            forall|k: int| 0 <= k < i ==> !matches_at(s@, q@, k),
        decreases n - m + 1 - i,
    {
        if matches_here(s, q, i) {
            return true;
        }
        i = i + 1;
    }
    assert forall|k: int| !matches_at(s@, q@, k) by {
        if 0 <= k && k + m <= n {
            assert(k < i);
        }
    }
    false
}

} // verus!
