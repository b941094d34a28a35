//! Amounts that the user types.

use vstd::prelude::*;

verus! {

/// The largest amount, in millilitres, that is taken from typed input.
pub const MAX_CUSTOM_AMOUNT: u32 = 2000;

/// Whether `c` is one of the ten decimal digits `0` to `9`.
pub open spec fn is_decimal_digit(c: char) -> bool {
    48 <= c as u32 <= 57
}

/// The number that the decimal digits `digits` write.
pub open spec fn decimal_value(digits: Seq<char>) -> nat
    decreases digits.len(),
{
    if digits.len() == 0 {
        0
    } else {
        decimal_value(digits.drop_last()) * 10 + (digits.last() as u32 - 48) as nat
    }
}

/// `text` without a plus sign at its front.
pub open spec fn without_plus(text: Seq<char>) -> Seq<char> {
    if text.len() > 0 && text[0] == '+' {
        text.subrange(1, text.len() as int)
    } else {
        text
    }
}

/// The number that `text` writes: a plus sign or none, then one or more
/// decimal digits and nothing else, the number being at most `u32::MAX`.
/// Any other text writes no number.
pub open spec fn parsed_amount(text: Seq<char>) -> Option<u32> {
    let digits = without_plus(text);
    if digits.len() > 0 && (forall|i: int|
        0 <= i < digits.len() ==> is_decimal_digit(#[trigger] digits[i])) && decimal_value(digits)
        <= u32::MAX {
        Some(decimal_value(digits) as u32)
    } else {
        None
    }
}

/// Reads `text` as a `u32` with `str::parse`. As the standard library
/// documents it, the text is a number where it is a plus sign or none
/// followed by decimal digits only, at least one, and the number fits in a
/// `u32`; every other text, the empty one and a sign alone among them, is
/// an error, which comes back as `None`.
#[verifier::external_body]
fn parse_amount(text: &str) -> (parsed: Option<u32>)
    ensures
        parsed == parsed_amount(text@),
{
    text.parse::<u32>().ok()
}

/// The amount to record for a typed number: the number itself where it is
/// at least 1 and at most 2000, and none otherwise.
pub open spec fn accepted_amount(parsed: Option<u32>) -> Option<u32> {
    match parsed {
        Some(amount) => if 0 < amount <= 2000 {
            Some(amount)
        } else {
            None
        },
        None => None,
    }
}

/// The amount to record for a typed number, if it is within bounds.
pub fn accept_custom_amount(parsed: Option<u32>) -> (amount: Option<u32>)
    ensures
        amount == accepted_amount(parsed),
{
    match parsed {
        Some(amount) => {
            if amount > 0 && amount <= MAX_CUSTOM_AMOUNT {
                Some(amount)
            } else {
                None
            }
        },
        None => None,
    }
}

/// The amount to record for what the user typed: none where the text is not
/// a number or the number is out of bounds.
pub fn custom_amount(text: &str) -> (amount: Option<u32>)
    ensures
        amount == accepted_amount(parsed_amount(text@)),
{
    accept_custom_amount(parse_amount(text))
}

} // verus!
