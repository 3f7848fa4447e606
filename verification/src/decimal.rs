//! Decimal text of a natural number, with digit groups.

use vstd::prelude::*;
use crate::magnitude::be_value;
use candid::Nat;
use num_bigint::BigUint;

verus! {

/// The character for a decimal digit `d`, `0 <= d <= 9`.
pub open spec fn digit_char(d: nat) -> char {
    (0x30 + d) as char
}

/// The decimal digits of `n`, most significant first, without leading zeros.
pub open spec fn decimal_digits(n: nat) -> Seq<char>
    decreases n,
{
    if n < 10 {
        seq![digit_char(n)]
    } else {
        decimal_digits(n / 10).push(digit_char(n % 10))
    }
}

/// `digits` with an underscore between groups of three, counted from the
/// right: `1234567` becomes `1_234_567`.
pub open spec fn grouped(digits: Seq<char>) -> Seq<char>
    decreases digits.len(),
{
    if digits.len() <= 3 {
        digits
    } else {
        let cut = digits.len() - 3;
        grouped(digits.subrange(0, cut)) + seq!['_'] + digits.subrange(cut, digits.len() as int)
    }
}

/// How a natural number is shown: decimal, in groups of three digits.
pub open spec fn grouped_decimal(n: nat) -> Seq<char> {
    grouped(decimal_digits(n))
}

/// Formats the number that `bytes` spell with the `Display` of
/// `candid::Nat`, which writes it in base ten and joins groups of three
/// digits, counted from the right, with underscores.
#[verifier::external_body]
pub(crate) fn be_decimal_text(bytes: &Vec<u8>) -> (r: String)
    ensures
        r@ == grouped_decimal(be_value(bytes@)),
{
    format!("{}", Nat::from(BigUint::from_bytes_be(bytes)))
}

} // verus!
