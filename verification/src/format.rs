//! Clock faces: minutes and seconds as text.

use vstd::prelude::*;

verus! {

/// The character for a decimal digit; `'0'` for anything above nine.
pub open spec fn digit_char(d: nat) -> char {
    if d == 1 {
        '1'
    } else if d == 2 {
        '2'
    } else if d == 3 {
        '3'
    } else if d == 4 {
        '4'
    } else if d == 5 {
        '5'
    } else if d == 6 {
        '6'
    } else if d == 7 {
        '7'
    } else if d == 8 {
        '8'
    } else if d == 9 {
        '9'
    } else {
        '0'
    }
}

/// The decimal digits of `n`, most significant first, without leading zeros.
pub open spec fn decimal(n: nat) -> Seq<char>
    decreases n,
{
    if n < 10 {
        seq![digit_char(n)]
    } else {
        decimal(n / 10).push(digit_char(n % 10))
    }
}

/// The decimal digits of `n`, with a leading zero where there would be only
/// one digit. Numbers of three digits and more are written in full.
pub open spec fn two_digits(n: nat) -> Seq<char> {
    if n < 10 {
        seq!['0', digit_char(n)]
    } else {
        decimal(n)
    }
}

/// `secs` seconds as minutes, a colon and the seconds left over.
pub open spec fn clock_text(secs: nat) -> Seq<char> {
    two_digits(secs / 60) + seq![':'] + two_digits(secs % 60)
}

/// The clock face of zero seconds.
pub open spec fn zero_text() -> Seq<char> {
    seq!['0', '0', ':', '0', '0']
}

/// The character for the digit `d`.
fn digit(d: u64) -> (c: char)
    requires
        d < 10,
    ensures
        c == digit_char(d as nat),
{
    if d == 1 {
        '1'
    } else if d == 2 {
        '2'
    } else if d == 3 {
        '3'
    } else if d == 4 {
        '4'
    } else if d == 5 {
        '5'
    } else if d == 6 {
        '6'
    } else if d == 7 {
        '7'
    } else if d == 8 {
        '8'
    } else if d == 9 {
        '9'
    } else {
        '0'
    }
}

/// Appends the decimal digits of `n` to `text`.
fn push_decimal(text: &mut String, n: u64)
    ensures
        final(text)@ == old(text)@ + decimal(n as nat),
    decreases n,
{
    if n >= 10 {
        push_decimal(text, n / 10);
    }
    text.push(digit(n % 10));
    assert(text@ =~= old(text)@ + decimal(n as nat));
}

/// Appends `n` to `text` in at least two digits.
fn push_two_digits(text: &mut String, n: u64)
    ensures
        final(text)@ == old(text)@ + two_digits(n as nat),
{
    if n < 10 {
        text.push('0');
        text.push(digit(n));
        assert(text@ =~= old(text)@ + two_digits(n as nat));
    } else {
        push_decimal(text, n);
    }
}

/// `secs` seconds written as minutes and seconds, each in at least two
/// digits: `"05:09"` for 309. A hundred minutes and more take the digits they
/// need: `"100:00"` for 6000.
pub fn format_clock(secs: u64) -> (text: String)
    ensures
        text@ == clock_text(secs as nat),
{
    let mut text = String::new();
    push_two_digits(&mut text, secs / 60);
    text.push(':');
    push_two_digits(&mut text, secs % 60);
    assert(text@ =~= clock_text(secs as nat));
    text
}

/// The clock face of zero seconds, `"00:00"`.
pub fn format_zero() -> (text: String)
    ensures
        text@ == zero_text(),
{
    let mut text = String::new();
    text.push('0');
    text.push('0');
    text.push(':');
    text.push('0');
    text.push('0');
    assert(text@ =~= zero_text());
    text
}

} // verus!
