//! Decimal text of integers, as `to_string` writes it.

use vstd::prelude::*;

verus! {

/// The character of decimal digit `d` (0 to 9).
pub open spec fn digit_char(d: int) -> char {
    (d + 48) as char
}

/// The decimal digits of `n`, most significant first, without leading zeros.
pub open spec fn decimal_digits(n: nat) -> Seq<char>
    decreases n,
{
    if n < 10 {
        seq![digit_char(n as int)]
    } else {
        decimal_digits(n / 10).push(digit_char((n % 10) as int))
    }
}

/// The decimal text of `n`, with a leading `-` when it is negative.
pub open spec fn decimal_text(n: int) -> Seq<char> {
    if n < 0 {
        seq!['-'] + decimal_digits((-n) as nat)
    } else {
        decimal_digits(n as nat)
    }
}

/// The number that a sequence of decimal digits denotes.
pub open spec fn digits_value(s: Seq<char>) -> int
    decreases s.len(),
{
    if s.len() == 0 {
        0
    } else {
        digits_value(s.drop_last()) * 10 + (s.last() as int - 48)
    }
}

/// Whether every character of `s` is a decimal digit.
pub open spec fn all_digits(s: Seq<char>) -> bool {
    forall|i: int| 0 <= i < s.len() ==> '0' <= #[trigger] s[i] <= '9'
}

/// The decimal text of a natural number is made of digits, starts with a
/// non-zero digit unless it is `0`, and denotes the number.
pub proof fn lemma_decimal_digits_value(n: nat)
    ensures
        all_digits(decimal_digits(n)),
        digits_value(decimal_digits(n)) == n,
        decimal_digits(n).len() >= 1,
        n > 0 ==> decimal_digits(n)[0] != '0',
    decreases n,
{
    if n < 10 {
        assert(digits_value(decimal_digits(n).drop_last()) == 0) by {
            assert(decimal_digits(n).drop_last() =~= Seq::<char>::empty());
        }
    } else {
        let q = n / 10;
        let r = n % 10;
        lemma_decimal_digits_value(q);
        assert(n == q * 10 + r) by (nonlinear_arith)
            requires
                q == n / 10,
                r == n % 10,
        ;
        assert(decimal_digits(n).drop_last() == decimal_digits(q));
        assert(decimal_digits(n)[0] == decimal_digits(q)[0]);
    }
}

/// Two numbers with the same decimal text are equal.
pub proof fn lemma_decimal_text_injective(a: int, b: int)
    requires
        decimal_text(a) == decimal_text(b),
    ensures
        a == b,
{
    if a < 0 {
        lemma_decimal_digits_value((-a) as nat);
    } else {
        lemma_decimal_digits_value(a as nat);
    }
    if b < 0 {
        lemma_decimal_digits_value((-b) as nat);
    } else {
        lemma_decimal_digits_value(b as nat);
    }
    if a < 0 && b < 0 {
        assert(decimal_digits((-a) as nat) == decimal_text(a).drop_first());
        assert(decimal_digits((-b) as nat) == decimal_text(b).drop_first());
    } else if a < 0 {
        assert(decimal_text(a)[0] == '-');
        assert(decimal_text(b)[0] == decimal_digits(b as nat)[0]);
    } else if b < 0 {
        assert(decimal_text(b)[0] == '-');
        assert(decimal_text(a)[0] == decimal_digits(a as nat)[0]);
    }
}

fn digit_str(d: u64) -> (s: &'static str)
    requires
        d < 10,
    ensures
        s@ == seq![digit_char(d as int)],
{
    proof {
        reveal_strlit("0");
        reveal_strlit("1");
        reveal_strlit("2");
        reveal_strlit("3");
        reveal_strlit("4");
        reveal_strlit("5");
        reveal_strlit("6");
        reveal_strlit("7");
        reveal_strlit("8");
        reveal_strlit("9");
    }
    match d {
        0 => "0",
        1 => "1",
        2 => "2",
        3 => "3",
        4 => "4",
        5 => "5",
        6 => "6",
        7 => "7",
        8 => "8",
        _ => "9",
    }
}

fn append_decimal(text: &mut String, n: u64)
    ensures
        final(text)@ == old(text)@ + decimal_digits(n as nat),
    decreases n,
{
    if n >= 10 {
        append_decimal(text, n / 10);
    }
    text.append(digit_str(n % 10));
    assert(old(text)@ + decimal_digits(n as nat) =~= text@);
}

/// The decimal text of an unsigned number.
pub fn decimal_u64(n: u64) -> (text: String)
    ensures
        text@ == decimal_text(n as int),
{
    let mut text = String::new();
    append_decimal(&mut text, n);
    assert(text@ =~= decimal_text(n as int));
    text
}

/// The decimal text of a signed number.
pub fn decimal_i64(n: i64) -> (text: String)
    ensures
        text@ == decimal_text(n as int),
{
    if n < 0 {
        let magnitude: u64 = (0i128 - n as i128) as u64;
        let mut text = String::from_str("-");
        proof {
            reveal_strlit("-");
        }
        append_decimal(&mut text, magnitude);
        assert(text@ =~= decimal_text(n as int));
        text
    } else {
        decimal_u64(n as u64)
    }
}

} // verus!
