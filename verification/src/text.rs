//! Numbers written out as decimal text.

use vstd::prelude::*;
use vstd::string::StringExecFns;

verus! {

/// The text of a digit.
pub open spec fn digit_text(digit: int) -> Seq<char> {
    if digit == 0 {
        "0"@
    } else if digit == 1 {
        "1"@
    } else if digit == 2 {
        "2"@
    } else if digit == 3 {
        "3"@
    } else if digit == 4 {
        "4"@
    } else if digit == 5 {
        "5"@
    } else if digit == 6 {
        "6"@
    } else if digit == 7 {
        "7"@
    } else if digit == 8 {
        "8"@
    } else {
        "9"@
    }
}

/// The decimal text of a number, without leading zeros.
pub open spec fn decimal_text(value: nat) -> Seq<char>
    decreases value,
{
    if value < 10 {
        digit_text(value as int)
    } else {
        decimal_text(value / 10) + digit_text((value % 10) as int)
    }
}

/// The decimal text of a number in at least `width` digits, with zeros in
/// front where it has fewer.
pub open spec fn padded_text(value: nat, width: nat) -> Seq<char>
    decreases width,
{
    if width <= 1 {
        decimal_text(value)
    } else if value < 10 {
        "0"@ + padded_text(value, (width - 1) as nat)
    } else {
        padded_text(value / 10, (width - 1) as nat) + digit_text((value % 10) as int)
    }
}

fn digit(value: u64) -> (text: &'static str)
    requires
        value < 10,
    ensures
        text@ == digit_text(value as int),
{
    let digit: u64 = value;
    if digit == 0 {
        "0"
    } else if digit == 1 {
        "1"
    } else if digit == 2 {
        "2"
    } else if digit == 3 {
        "3"
    } else if digit == 4 {
        "4"
    } else if digit == 5 {
        "5"
    } else if digit == 6 {
        "6"
    } else if digit == 7 {
        "7"
    } else if digit == 8 {
        "8"
    } else {
        "9"
    }
}

/// Writes a number out in decimal.
pub fn decimal(value: u64) -> (text: String)
    ensures
        text@ == decimal_text(value as nat),
    decreases value,
{
    if value < 10 {
        digit(value).to_owned()
    } else {
        decimal(value / 10).concat(digit(value % 10))
    }
}

/// Writes a number out in decimal in at least `width` digits.
pub fn padded(value: u64, width: u32) -> (text: String)
    ensures
        text@ == padded_text(value as nat, width as nat),
    decreases width,
{
    if width <= 1 {
        decimal(value)
    } else if value < 10 {
        "0".to_owned().concat(padded(value, width - 1).as_str())
    } else {
        padded(value / 10, width - 1).concat(digit(value % 10))
    }
}

/// `head` followed by `tail`.
pub fn followed_by(head: String, tail: &str) -> (text: String)
    ensures
        text@ == head@ + tail@,
{
    head.concat(tail)
}

} // verus!
