//! Formatting of an elapsed time, given in whole seconds.
//!
//! One scheme is used everywhere: `Ns` under a minute, `MmSSs` under an hour
//! and `HhMMmSSs` from there on, the minutes and seconds below the leading
//! field padded to two digits.

use vstd::prelude::*;
use vstd::string::*;

verus! {

/// The character that writes the decimal digit `d`.
pub open spec fn digit_char(d: nat) -> char
    recommends
        d < 10,
{
    if d == 0 {
        '0'
    } else if d == 1 {
        '1'
    } else if d == 2 {
        '2'
    } else if d == 3 {
        '3'
    } else if d == 4 {
        '4'
    } else if d == 5 {
        '5'
    } else if d == 6 {
        '6'
    } else if d == 7 {
        '7'
    } else if d == 8 {
        '8'
    } else {
        '9'
    }
}

/// The decimal numeral of `n`, without leading zeros.
pub open spec fn decimal(n: nat) -> Seq<char>
    decreases n,
{
    if n < 10 {
        seq![digit_char(n)]
    } else {
        decimal(n / 10).push(digit_char(n % 10))
    }
}

/// The two-digit numeral of `n`, with a leading zero below ten.
pub open spec fn two_digits(n: nat) -> Seq<char>
    recommends
        n < 100,
{
    seq![digit_char(n / 10), digit_char(n % 10)]
}

/// The text that displays `secs` seconds of elapsed time.
pub open spec fn time_text(secs: nat) -> Seq<char> {
    let seconds = secs % 60;
    let total_minutes = secs / 60;
    let minutes = total_minutes % 60;
    let hours = total_minutes / 60;
    if hours > 0 {
        decimal(hours) + seq!['h'] + two_digits(minutes) + seq!['m'] + two_digits(seconds)
            + seq!['s']
    } else if total_minutes > 0 {
        decimal(minutes) + seq!['m'] + two_digits(seconds) + seq!['s']
    } else {
        decimal(seconds) + seq!['s']
    }
}

/// The one-character string of a decimal digit.
fn digit_str(d: u64) -> (s: &'static str)
    requires
        d < 10,
    ensures
        s@ == seq![digit_char(d as nat)],
{
    proof {
        reveal_strlit("0");
        reveal_strlit("1");
        reveal_strlit("2");
        reveal_strlit("3");
        reveal_strlit("4");
        reveal_strlit("5");
        reveal_strlit("6");
        reveal_strlit("7");
        reveal_strlit("8");
        reveal_strlit("9");
    }
    let s = if d == 0 {
        "0"
    } else if d == 1 {
        "1"
    } else if d == 2 {
        "2"
    } else if d == 3 {
        "3"
    } else if d == 4 {
        "4"
    } else if d == 5 {
        "5"
    } else if d == 6 {
        "6"
    } else if d == 7 {
        "7"
    } else if d == 8 {
        "8"
    } else {
        "9"
    };
    s
}

/// Appends the decimal numeral of `n` to `out`.
fn push_decimal(out: &mut String, n: u64)
    ensures
        final(out)@ == old(out)@ + decimal(n as nat),
    decreases n,
{
    if n >= 10 {
        push_decimal(out, n / 10);
    }
    out.append(digit_str(n % 10));
}

/// Appends the two-digit numeral of `n` to `out`.
fn push_two_digits(out: &mut String, n: u64)
    requires
        n < 100,
    ensures
        final(out)@ == old(out)@ + two_digits(n as nat),
{
    out.append(digit_str(n / 10));
    out.append(digit_str(n % 10));
}

/// Formats an elapsed time of `total_seconds` seconds.
pub fn get_string_time(total_seconds: u64) -> (text: String)
    ensures
        text@ == time_text(total_seconds as nat),
{
    let seconds: u64 = total_seconds % 60;
    let total_minutes: u64 = total_seconds / 60;
    let minutes: u64 = total_minutes % 60;
    let hours: u64 = total_minutes / 60;
    let mut text = String::new();
    if hours > 0 {
        push_decimal(&mut text, hours);
        text.append("h");
        push_two_digits(&mut text, minutes);
        text.append("m");
        push_two_digits(&mut text, seconds);
    } else if total_minutes > 0 {
        push_decimal(&mut text, minutes);
        text.append("m");
        push_two_digits(&mut text, seconds);
    } else {
        push_decimal(&mut text, seconds);
    }
    text.append("s");
    proof {
        reveal_strlit("h");
        reveal_strlit("m");
        reveal_strlit("s");
    }
    text
}

} // verus!
