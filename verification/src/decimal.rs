//! Numbers written out in decimal.

use vstd::prelude::*;
use vstd::string::*;

verus! {

/// The decimal digit `digit`.
pub open spec fn digit_text(digit: nat) -> Seq<char> {
    if digit == 0 {
        "0"@
    } else if digit == 1 {
        "1"@
    } else if digit == 2 {
        "2"@
    } else if digit == 3 {
        "3"@
    } else if digit == 4 {
        "4"@
    } else if digit == 5 {
        "5"@
    } else if digit == 6 {
        "6"@
    } else if digit == 7 {
        "7"@
    } else if digit == 8 {
        "8"@
    } else {
        "9"@
    }
}

/// `number` in decimal, without leading zeros.
pub open spec fn decimal_text(number: nat) -> Seq<char>
    decreases number,
{
    if number < 10 {
        digit_text(number)
    } else {
        decimal_text(number / 10) + digit_text(number % 10)
    }
}

/// The text of one decimal digit.
fn digit_str(digit: u64) -> (text: &'static str)
    requires
        digit < 10,
    ensures
        text@ == digit_text(digit as nat),
{
    if digit == 0 {
        "0"
    } else if digit == 1 {
        "1"
    } else if digit == 2 {
        "2"
    } else if digit == 3 {
        "3"
    } else if digit == 4 {
        "4"
    } else if digit == 5 {
        "5"
    } else if digit == 6 {
        "6"
    } else if digit == 7 {
        "7"
    } else if digit == 8 {
        "8"
    } else {
        "9"
    }
}

/// Appends `number` in decimal.
pub(crate) fn push_decimal(out: &mut String, number: u64)
    ensures
        final(out)@ == old(out)@ + decimal_text(number as nat),
    decreases number,
{
    if number >= 10 {
        push_decimal(out, number / 10);
    }
    out.append(digit_str(number % 10));
    assert(out@ =~= old(out)@ + decimal_text(number as nat));
}

} // verus!
