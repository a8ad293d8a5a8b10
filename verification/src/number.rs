//! Integers as decimal text.

use vstd::prelude::*;

verus! {

/// The character for a digit from 0 to 9.
pub open spec fn digit_char(d: nat) -> char
    recommends
        d < 10,
{
    "0123456789"@[d as int]
}

/// The decimal digits of a natural number, most significant first, without leading zeros.
pub open spec fn decimal_digits(n: nat) -> Seq<char>
    decreases n,
{
    if n < 10 {
        seq![digit_char(n)]
    } else {
        decimal_digits(n / 10).push(digit_char(n % 10))
    }
}

/// An integer in decimal: its digits, after a `-` if it is negative.
pub open spec fn decimal(n: int) -> Seq<char> {
    if n < 0 {
        seq!['-'] + decimal_digits((-n) as nat)
    } else {
        decimal_digits(n as nat)
    }
}

/// Appends the decimal digits of `n` to `text`.
fn push_decimal_digits(text: &mut String, n: u64)
    ensures
        final(text)@ == old(text)@ + decimal_digits(n as nat),
    decreases n,
{
    if n >= 10 {
        push_decimal_digits(text, n / 10);
    }
    let digit: u8 = (n % 10) as u8;
    text.push((48u8 + digit) as char);
    proof {
        reveal_strlit("0123456789");
        assert(text@ =~= old(text)@ + decimal_digits(n as nat));
    }
}

/// Writes an integer in decimal, as `i64`'s `Display` does.
pub fn decimal_string(n: i64) -> (text: String)
    ensures
        text@ == decimal(n as int),
{
    let mut text = String::new();
    if n < 0 {
        text.push('-');
        let magnitude: u64 = if n == i64::MIN {
            0x8000_0000_0000_0000
        } else {
            (-n) as u64
        };
        push_decimal_digits(&mut text, magnitude);
    } else {
        push_decimal_digits(&mut text, n as u64);
    }
    assert(text@ =~= decimal(n as int));
    text
}

} // verus!
