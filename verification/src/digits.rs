//! Decimal rendering and parsing of natural numbers, shared by date labels
//! and the persistence encoding.

use vstd::prelude::*;

verus! {

/// The decimal digit character for a value below ten.
pub open spec fn digit_char(d: nat) -> char {
    if d == 0 {
        '0'
    } else if d == 1 {
        '1'
    } else if d == 2 {
        '2'
    } else if d == 3 {
        '3'
    } else if d == 4 {
        '4'
    } else if d == 5 {
        '5'
    } else if d == 6 {
        '6'
    } else if d == 7 {
        '7'
    } else if d == 8 {
        '8'
    } else {
        '9'
    }
}

pub open spec fn is_digit(c: char) -> bool {
    c == '0' || c == '1' || c == '2' || c == '3' || c == '4' || c == '5' || c == '6' || c == '7'
        || c == '8' || c == '9'
}

pub open spec fn digit_val(c: char) -> nat {
    if c == '0' {
        0
    } else if c == '1' {
        1
    } else if c == '2' {
        2
    } else if c == '3' {
        3
    } else if c == '4' {
        4
    } else if c == '5' {
        5
    } else if c == '6' {
        6
    } else if c == '7' {
        7
    } else if c == '8' {
        8
    } else {
        9
    }
}

/// The decimal digit sequence of `n`, most significant digit first, with no
/// leading zeros (a single `'0'` for zero).
pub open spec fn enc_nat(n: nat) -> Seq<char>
    decreases n,
{
    if n < 10 {
        seq![digit_char(n)]
    } else {
        enc_nat(n / 10).push(digit_char(n % 10))
    }
}

pub open spec fn all_digits(s: Seq<char>) -> bool {
    forall|i: int| 0 <= i < s.len() ==> is_digit(#[trigger] s[i])
}

/// The value of a digit sequence read as a decimal number.
pub open spec fn digits_val(s: Seq<char>) -> nat
    decreases s.len(),
{
    if s.len() == 0 {
        0
    } else {
        digits_val(s.drop_last()) * 10 + digit_val(s.last())
    }
}

pub open spec fn pow10(k: nat) -> nat
    decreases k,
{
    if k == 0 {
        1
    } else {
        10 * pow10((k - 1) as nat)
    }
}

pub proof fn lemma_enc_nat(n: nat)
    ensures
        enc_nat(n).len() >= 1,
        all_digits(enc_nat(n)),
        digits_val(enc_nat(n)) == n,
    decreases n,
{
    if n < 10 {
        assert(enc_nat(n) =~= seq![digit_char(n)]);
        assert(enc_nat(n).drop_last() =~= Seq::<char>::empty());
        assert(digits_val(Seq::<char>::empty()) == 0);
        assert(enc_nat(n).last() == digit_char(n));
        assert(digit_val(digit_char(n)) == n);
        assert(digits_val(enc_nat(n)) == digits_val(enc_nat(n).drop_last()) * 10 + digit_val(
            enc_nat(n).last(),
        ));
    } else {
        lemma_enc_nat(n / 10);
        let s = enc_nat(n);
        assert(s =~= enc_nat(n / 10).push(digit_char(n % 10)));
        assert(s.drop_last() =~= enc_nat(n / 10));
        assert(s.last() == digit_char(n % 10));
        assert(digit_val(digit_char(n % 10)) == n % 10);
        assert(digits_val(s) == (n / 10) * 10 + n % 10);
    }
}

/// Greedily consume decimal digits from position `i`, folding them onto `acc`;
/// returns the value and the first position not consumed.
pub open spec fn take_digits(s: Seq<char>, i: int, acc: nat) -> (nat, int)
    decreases s.len() - i,
{
    if 0 <= i < s.len() && is_digit(s[i]) {
        take_digits(s, i + 1, acc * 10 + digit_val(s[i]))
    } else {
        (acc, i)
    }
}

/// A decimal number of at least one digit starting at `i`: its value and the
/// position after it, or `None` if no digit stands at `i`.
pub open spec fn parse_nat(s: Seq<char>, i: int) -> Option<(nat, int)> {
    let (v, j) = take_digits(s, i, 0);
    if j > i {
        Some((v, j))
    } else {
        None
    }
}

/// Reading the leading digit off the front of a digit sequence.
proof fn lemma_digits_val_first(t: Seq<char>)
    requires
        t.len() >= 1,
    ensures
        digits_val(t) == digit_val(t[0]) * pow10((t.len() - 1) as nat) + digits_val(
            t.drop_first(),
        ),
    decreases t.len(),
{
    if t.len() == 1 {
        assert(t.drop_last() =~= Seq::<char>::empty());
        assert(t.drop_first() =~= Seq::<char>::empty());
    } else {
        let h = t.drop_last();
        lemma_digits_val_first(h);
        assert(h[0] == t[0]);
        assert(t.drop_first().drop_last() =~= h.drop_first());
        assert(t.drop_first().last() == t.last());
        let k = (h.len() - 1) as nat;
        assert(digits_val(t) == digits_val(h) * 10 + digit_val(t.last()));
        assert(digits_val(h) == digit_val(t[0]) * pow10(k) + digits_val(h.drop_first()));
        assert((digit_val(t[0]) * pow10(k) + digits_val(h.drop_first())) * 10 == digit_val(t[0])
            * (pow10(k) * 10) + digits_val(h.drop_first()) * 10) by (nonlinear_arith);
        assert(pow10(k + 1) == 10 * pow10(k));
        assert(digits_val(t.drop_first()) == digits_val(h.drop_first()) * 10 + digit_val(
            t.last(),
        ));
    }
}

/// Greedy digit taking over a known digit run `[i, j)` yields the run's value
/// folded onto `acc` and stops exactly at `j`.
proof fn lemma_take_digits_run(s: Seq<char>, i: int, j: int, acc: nat)
    requires
        0 <= i <= j <= s.len(),
        forall|k: int| i <= k < j ==> is_digit(#[trigger] s[k]),
        j == s.len() || !is_digit(s[j]),
    ensures
        take_digits(s, i, acc) == ((acc * pow10((j - i) as nat) + digits_val(
            s.subrange(i, j),
        ), j)),
    decreases j - i,
{
    if i == j {
        assert(s.subrange(i, j) =~= Seq::<char>::empty());
        assert(acc * 1 == acc) by (nonlinear_arith);
    } else {
        let d0 = digit_val(s[i]);
        lemma_take_digits_run(s, i + 1, j, acc * 10 + d0);
        let t = s.subrange(i, j);
        assert(t.len() >= 1);
        lemma_digits_val_first(t);
        assert(t[0] == s[i]);
        assert(t.drop_first() =~= s.subrange(i + 1, j));
        let m = (j - i - 1) as nat;
        assert((acc * 10 + d0) * pow10(m) == acc * (10 * pow10(m)) + d0 * pow10(m))
            by (nonlinear_arith);
        assert(pow10((j - i) as nat) == 10 * pow10(m));
    }
}

/// Folding digits never shrinks the accumulator.
pub proof fn lemma_take_digits_ge(s: Seq<char>, i: int, acc: nat)
    ensures
        take_digits(s, i, acc).0 >= acc,
    decreases s.len() - i,
{
    if 0 <= i < s.len() && is_digit(s[i]) {
        lemma_take_digits_ge(s, i + 1, acc * 10 + digit_val(s[i]));
    }
}

/// Parsing right after encoding: if the characters at `i` are exactly
/// `enc_nat(n)` and the next character (if any) is not a digit, `parse_nat`
/// returns `n` and stops right after the digits.
pub proof fn lemma_parse_enc_nat(s: Seq<char>, i: int, n: nat)
    requires
        0 <= i,
        i + enc_nat(n).len() <= s.len(),
        s.subrange(i, i + enc_nat(n).len()) == enc_nat(n),
        i + enc_nat(n).len() == s.len() || !is_digit(s[i + enc_nat(n).len()]),
    ensures
        parse_nat(s, i) == Some((n, i + enc_nat(n).len())),
{
    lemma_enc_nat(n);
    let j = i + enc_nat(n).len() as int;
    assert forall|k: int| i <= k < j implies is_digit(#[trigger] s[k]) by {
        assert(s.subrange(i, j)[k - i] == s[k]);
        assert(is_digit(enc_nat(n)[k - i]));
    }
    lemma_take_digits_run(s, i, j, 0);
    assert(0 * pow10((j - i) as nat) == 0) by (nonlinear_arith);
}

/// The digit value of `c`, when `c` is a decimal digit.
pub fn digit_of(c: char) -> (r: Option<u64>)
    ensures
        match r {
            Some(d) => is_digit(c) && d < 10 && d as nat == digit_val(c),
            None => !is_digit(c),
        },
{
    match c {
        '0' => Some(0),
        '1' => Some(1),
        '2' => Some(2),
        '3' => Some(3),
        '4' => Some(4),
        '5' => Some(5),
        '6' => Some(6),
        '7' => Some(7),
        '8' => Some(8),
        '9' => Some(9),
        _ => None,
    }
}

/// Appends the single decimal digit `d`.
pub fn append_digit(out: &mut String, d: u64)
    requires
        d < 10,
    ensures
        final(out)@ == old(out)@ + seq![digit_char(d as nat)],
{
    proof {
        reveal_strlit("0");
        reveal_strlit("1");
        reveal_strlit("2");
        reveal_strlit("3");
        reveal_strlit("4");
        reveal_strlit("5");
        reveal_strlit("6");
        reveal_strlit("7");
        reveal_strlit("8");
        reveal_strlit("9");
    }
    if d == 0 {
        out.append("0");
    } else if d == 1 {
        out.append("1");
    } else if d == 2 {
        out.append("2");
    } else if d == 3 {
        out.append("3");
    } else if d == 4 {
        out.append("4");
    } else if d == 5 {
        out.append("5");
    } else if d == 6 {
        out.append("6");
    } else if d == 7 {
        out.append("7");
    } else if d == 8 {
        out.append("8");
    } else {
        out.append("9");
    }
    proof {
        assert(out@ =~= old(out)@ + seq![digit_char(d as nat)]);
    }
}

/// Appends the decimal digits of `n`, most significant first.
pub fn append_nat(out: &mut String, n: u64)
    ensures
        final(out)@ == old(out)@ + enc_nat(n as nat),
    decreases n,
{
    if n < 10 {
        append_digit(out, n);
    } else {
        append_nat(out, n / 10);
        append_digit(out, n % 10);
        proof {
            assert(out@ =~= old(out)@ + enc_nat(n as nat));
        }
    }
}

} // verus!
