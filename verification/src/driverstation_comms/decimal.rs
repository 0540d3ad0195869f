//! Decimal renderings of small unsigned integers, as used in team-number
//! addresses and in error messages.
use vstd::prelude::*;

verus! {

/// The character of the decimal digit `d` (for `0 <= d < 10`).
pub open spec fn digit_char(d: int) -> char {
    ('0' as int + d) as char
}

/// The numeric value of a digit character.
pub open spec fn char_digit_value(c: char) -> int {
    c as int - '0' as int
}

/// The usual decimal rendering of `n`: no leading zeros, `"0"` for zero.
pub open spec fn decimal(n: nat) -> Seq<char>
    decreases n,
{
    if n < 10 {
        seq![digit_char(n as int)]
    } else {
        decimal(n / 10).push(digit_char((n % 10) as int))
    }
}

/// The number that a string of decimal digits denotes (leading zeros allowed).
pub open spec fn digits_value(s: Seq<char>) -> int
    decreases s.len(),
{
    if s.len() == 0 {
        0
    } else {
        digits_value(s.drop_last()) * 10 + char_digit_value(s.last())
    }
}

/// Every character of `s` is one of `'0'..='9'`.
pub open spec fn all_digits(s: Seq<char>) -> bool {
    forall|i: int| 0 <= i < s.len() ==> '0' <= #[trigger] s[i] <= '9'
}

/// A digit's character is a digit character and has the digit's value.
pub proof fn lemma_digit_char_value(d: int)
    requires
        0 <= d < 10,
    ensures
        char_digit_value(digit_char(d)) == d,
        '0' <= digit_char(d) <= '9',
{
}

/// Appending a digit multiplies the value by ten and adds the digit.
pub proof fn lemma_digits_value_push(s: Seq<char>, c: char)
    ensures
        digits_value(s.push(c)) == digits_value(s) * 10 + char_digit_value(c),
{
    assert(s.push(c).drop_last() =~= s);
}

/// The decimal rendering of `n` is made of digits, denotes `n`, and has no
/// leading zero unless it is `"0"`.
pub proof fn lemma_decimal_spells(n: nat)
    ensures
        all_digits(decimal(n)),
        digits_value(decimal(n)) == n,
        decimal(n).len() >= 1,
        decimal(n)[0] == '0' ==> n == 0,
    decreases n,
{
    lemma_digit_char_value((n % 10) as int);
    if n < 10 {
        lemma_digits_value_push(Seq::<char>::empty(), digit_char(n as int));
        assert(seq![digit_char(n as int)] =~= Seq::<char>::empty().push(digit_char(n as int)));
    } else {
        lemma_decimal_spells(n / 10);
        lemma_digits_value_push(decimal(n / 10), digit_char((n % 10) as int));
        assert(decimal(n)[0] == decimal(n / 10)[0]);
    }
}

/// The one-character string of the digit `d`.
pub fn digit_str(d: u8) -> (s: &'static str)
    requires
        d < 10,
    ensures
        s@ == seq![digit_char(d as int)],
{
    proof {
        reveal_strlit("0");
        reveal_strlit("1");
        reveal_strlit("2");
        reveal_strlit("3");
        reveal_strlit("4");
        reveal_strlit("5");
        reveal_strlit("6");
        reveal_strlit("7");
        reveal_strlit("8");
        reveal_strlit("9");
    }
    match d {
        0 => "0",
        1 => "1",
        2 => "2",
        3 => "3",
        4 => "4",
        5 => "5",
        6 => "6",
        7 => "7",
        8 => "8",
        _ => "9",
    }
}

/// Appends the decimal rendering of `n` to `s`.
pub fn push_decimal(s: &mut String, n: u16)
    ensures
        final(s)@ == old(s)@ + decimal(n as nat),
    decreases n,
{
    if n >= 10 {
        push_decimal(s, n / 10);
    }
    let d: u16 = n % 10;
    s.append(digit_str(d as u8));
    proof {
        if n < 10 {
            assert(decimal(n as nat) == seq![digit_char(n as int)]);
        } else {
            assert(decimal(n as nat) == decimal((n / 10) as nat).push(digit_char((n % 10) as int)));
        }
    }
}

/// The decimal rendering of `n` as a new string.
pub fn decimal_string(n: u16) -> (s: String)
    ensures
        s@ == decimal(n as nat),
{
    let mut s = String::new();
    push_decimal(&mut s, n);
    proof {
        assert(Seq::<char>::empty() + decimal(n as nat) =~= decimal(n as nat));
    }
    s
}

} // verus!
