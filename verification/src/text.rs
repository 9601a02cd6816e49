//! Small verified string helpers: decimal rendering of integers.

use vstd::prelude::*;
use vstd::string::*;

verus! {

/// The ASCII digit for a value below ten.
pub open spec fn digit_char(d: nat) -> char {
    if d == 0 { '0' }
    else if d == 1 { '1' }
    else if d == 2 { '2' }
    else if d == 3 { '3' }
    else if d == 4 { '4' }
    else if d == 5 { '5' }
    else if d == 6 { '6' }
    else if d == 7 { '7' }
    else if d == 8 { '8' }
    else { '9' }
}

/// Decimal rendering of a natural number, without leading zeros.
pub open spec fn decimal(n: nat) -> Seq<char>
    decreases n,
{
    if n < 10 {
        seq![digit_char(n)]
    } else {
        decimal(n / 10).push(digit_char(n % 10))
    }
}

/// The one-character string holding the digit `d`.
fn digit_str(d: u64) -> (s: &'static str)
    requires
        d < 10,
    ensures
        s@ == seq![digit_char(d as nat)],
{
    let digits = "0123456789";
    proof {
        reveal_strlit("0123456789");
    }
    let i = d as usize;
    digits.substring_char(i, i + 1)
}

/// Renders `n` in decimal, as `format!("{}", n)` does.
pub fn u64_to_decimal(n: u64) -> (s: String)
    ensures
        s@ == decimal(n as nat),
    decreases n,
{
    if n < 10 {
        String::from_str(digit_str(n))
    } else {
        let mut s = u64_to_decimal(n / 10);
        s.append(digit_str(n % 10));
        s
    }
}

/// `s` ends with `t`.
pub open spec fn ends_with(s: Seq<char>, t: Seq<char>) -> bool {
    s.len() >= t.len() && s.subrange(s.len() - t.len(), s.len() as int) == t
}

/// `s` starts with `t`.
pub open spec fn starts_with(s: Seq<char>, t: Seq<char>) -> bool {
    s.len() >= t.len() && s.subrange(0, t.len() as int) == t
}

/// `t` occurs in `s` at position `i`.
pub open spec fn occurs_at(s: Seq<char>, t: Seq<char>, i: int) -> bool {
    0 <= i && i + t.len() <= s.len() && s.subrange(i, i + t.len()) == t
}

/// `t` occurs somewhere in `s`.
pub open spec fn contains_text(s: Seq<char>, t: Seq<char>) -> bool {
    exists|i: int| occurs_at(s, t, i)
}

/// The part of `s` after the last `c` (all of `s` when there is none),
/// as `s.split(c).last()` gives it.
pub open spec fn after_last(s: Seq<char>, c: char) -> Seq<char>
    decreases s.len(),
{
    if s.len() == 0 {
        s
    } else if s.last() == c {
        Seq::empty()
    } else {
        after_last(s.drop_last(), c).push(s.last())
    }
}

/// Whether `s` starts with `t`.
pub fn text_starts_with(s: &str, t: &str) -> (b: bool)
    ensures
        b == starts_with(s@, t@),
{
    let ls = s.unicode_len();
    let lt = t.unicode_len();
    if ls < lt {
        return false;
    }
    let head = s.substring_char(0, lt);
    text_equal(head, t)
}

/// Whether two texts are equal.
pub fn text_equal(a: &str, b: &str) -> (r: bool)
    ensures
        r == (a@ == b@),
{
    let la = a.unicode_len();
    let lb = b.unicode_len();
    if la != lb {
        return false;
    }
    let mut i: usize = 0;
    while i < la
        invariant
            la == a@.len(),
            lb == b@.len(),
            la == lb,
            i <= la,
            forall|j: int| 0 <= j < i ==> a@[j] == b@[j],
        decreases la - i,
    {
        if a.get_char(i) != b.get_char(i) {
            return false;
        }
        i = i + 1;
    }
    assert(a@ =~= b@);
    true
}

/// Whether `s` ends with `t`.
pub fn text_ends_with(s: &str, t: &str) -> (b: bool)
    ensures
        b == ends_with(s@, t@),
{
    let ls = s.unicode_len();
    let lt = t.unicode_len();
    if ls < lt {
        return false;
    }
    let tail = s.substring_char(ls - lt, ls);
    text_equal(tail, t)
}

/// `s` without the suffix `t`, if it ends with it.
pub fn strip_suffix<'a>(s: &'a str, t: &str) -> (r: Option<&'a str>)
    ensures
        r is Some <==> ends_with(s@, t@),
        r is Some ==> r->0@ == s@.subrange(0, s@.len() - t@.len()),
{
    if text_ends_with(s, t) {
        let ls = s.unicode_len();
        let lt = t.unicode_len();
        Some(s.substring_char(0, ls - lt))
    } else {
        None
    }
}

/// Whether `t` occurs in `s`.
pub fn text_contains(s: &str, t: &str) -> (b: bool)
    ensures
        b == contains_text(s@, t@),
{
    let ls = s.unicode_len();
    let lt = t.unicode_len();
    if lt > ls {
        assert forall|i: int| !occurs_at(s@, t@, i) by {}
        return false;
    }
    let mut i: usize = 0;
    loop
        invariant
            ls == s@.len(),
            lt == t@.len(),
            lt <= ls,
            i <= ls - lt,
            forall|j: int| 0 <= j < i ==> !occurs_at(s@, t@, j),
        ensures
            forall|j: int| 0 <= j <= ls - lt ==> !occurs_at(s@, t@, j),
        decreases ls - lt - i,
    {
        let part = s.substring_char(i, i + lt);
        if text_equal(part, t) {
            assert(occurs_at(s@, t@, i as int));
            return true;
        }
        if i == ls - lt {
            break;
        }
        i = i + 1;
    }
    assert forall|j: int| !occurs_at(s@, t@, j) by {
        if 0 <= j && j + t@.len() <= s@.len() {
            assert(j <= ls - lt);
        }
    }
    false
}

proof fn lemma_after_last_no_c(s: Seq<char>, c: char, k: int)
    requires
        0 <= k <= s.len(),
        forall|j: int| k <= j < s.len() ==> s[j] != c,
        k == 0 || s[k - 1] == c,
    ensures
        after_last(s, c) == s.subrange(k, s.len() as int),
    decreases s.len(),
{
    if s.len() == k {
        if k == 0 {
            assert(s =~= s.subrange(0, 0));
        } else {
            assert(s.last() == c);
        }
        assert(s.subrange(k, s.len() as int) =~= Seq::<char>::empty());
    } else {
        lemma_after_last_no_c(s.drop_last(), c, k);
        assert(s.drop_last().subrange(k, s.len() - 1).push(s.last()) =~= s.subrange(k, s.len() as int));
    }
}

/// The part of `s` after its last `c`.
pub fn text_after_last<'a>(s: &'a str, c: char) -> (r: &'a str)
    ensures
        r@ == after_last(s@, c),
{
    let ls = s.unicode_len();
    let mut k: usize = ls;
    while k > 0
        invariant
            ls == s@.len(),
            k <= ls,
            forall|j: int| k <= j < ls ==> s@[j] != c,
        ensures
            k <= ls,
            forall|j: int| k <= j < ls ==> s@[j] != c,
            k == 0 || s@[k - 1] == c,
        decreases k,
    {
        if s.get_char(k - 1) == c {
            break;
        }
        k = k - 1;
    }
    proof {
        lemma_after_last_no_c(s@, c, k as int);
    }
    s.substring_char(k, ls)
}

} // verus!
