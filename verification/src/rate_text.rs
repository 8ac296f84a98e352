//! The text of a rate: a percentage written in decimal.
//!
//! A rate is a number of hundredths of a percent. Its text is the whole part
//! in decimal without leading zeros, followed, where the rate is not a whole
//! number of percent, by a point and one or two digits, the second one only
//! where it is not zero: 1000 is "10", 1250 is "12.5", 1205 is "12.05".

use vstd::prelude::*;
use vstd::string::StringExecFns;

verus! {

/// The character of a decimal digit.
pub open spec fn digit_char(d: nat) -> char {
    if d == 0 {
        '0'
    } else if d == 1 {
        '1'
    } else if d == 2 {
        '2'
    } else if d == 3 {
        '3'
    } else if d == 4 {
        '4'
    } else if d == 5 {
        '5'
    } else if d == 6 {
        '6'
    } else if d == 7 {
        '7'
    } else if d == 8 {
        '8'
    } else {
        '9'
    }
}

/// A natural number in decimal, without leading zeros.
pub open spec fn decimal_digits(n: nat) -> Seq<char>
    decreases n,
{
    if n < 10 {
        seq![digit_char(n)]
    } else {
        decimal_digits(n / 10).push(digit_char(n % 10))
    }
}

/// The digits after the point of a rate: none for a whole number of
/// percent, else one or two.
pub open spec fn fraction_text(hundredths: nat) -> Seq<char> {
    if hundredths == 0 {
        Seq::empty()
    } else if hundredths % 10 == 0 {
        seq!['.', digit_char(hundredths / 10)]
    } else {
        seq!['.', digit_char(hundredths / 10), digit_char(hundredths % 10)]
    }
}

/// The text of a rate given in hundredths of a percent.
pub open spec fn rate_text(rate: nat) -> Seq<char> {
    decimal_digits(rate / 100) + fraction_text(rate % 100)
}

/// The message that announces a discount at `rate`.
pub open spec fn rate_message(rate: nat) -> Seq<char> {
    rate_text(rate) + "% off"@
}

/// The one-character text of a decimal digit.
pub fn digit_text(d: u64) -> (text: &'static str)
    requires
        d < 10,
    ensures
        text@ == seq![digit_char(d as nat)],
{
    proof {
        reveal_strlit("0");
        reveal_strlit("1");
        reveal_strlit("2");
        reveal_strlit("3");
        reveal_strlit("4");
        reveal_strlit("5");
        reveal_strlit("6");
        reveal_strlit("7");
        reveal_strlit("8");
        reveal_strlit("9");
    }
    let text = if d == 0 {
        "0"
    } else if d == 1 {
        "1"
    } else if d == 2 {
        "2"
    } else if d == 3 {
        "3"
    } else if d == 4 {
        "4"
    } else if d == 5 {
        "5"
    } else if d == 6 {
        "6"
    } else if d == 7 {
        "7"
    } else if d == 8 {
        "8"
    } else {
        "9"
    };
    assert(text@ =~= seq![digit_char(d as nat)]);
    text
}

/// Appends `n` in decimal to `out`.
pub fn push_decimal(out: &mut String, n: u64)
    ensures
        final(out)@ == old(out)@ + decimal_digits(n as nat),
    decreases n,
{
    if n >= 10 {
        push_decimal(out, n / 10);
    }
    out.append(digit_text(n % 10));
    assert(out@ =~= old(out)@ + decimal_digits(n as nat));
}

/// Appends the text of `rate` to `out`.
pub fn push_rate(out: &mut String, rate: u64)
    ensures
        final(out)@ == old(out)@ + rate_text(rate as nat),
{
    push_decimal(out, rate / 100);
    let hundredths: u64 = rate % 100;
    if hundredths != 0 {
        proof {
            reveal_strlit(".");
        }
        out.append(".");
        out.append(digit_text(hundredths / 10));
        if hundredths % 10 != 0 {
            out.append(digit_text(hundredths % 10));
        }
    }
    assert(out@ =~= old(out)@ + rate_text(rate as nat));
}

/// The message that announces a discount at `rate`: its text, then "% off".
pub fn message_for(rate: u64) -> (message: String)
    ensures
        message@ == rate_message(rate as nat),
{
    let mut message = String::new();
    push_rate(&mut message, rate);
    message.append("% off");
    assert(message@ =~= rate_message(rate as nat));
    message
}

} // verus!
