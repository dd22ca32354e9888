//! Building the text of messages and reports: decimal and hexadecimal
//! numerals, fixed-point decimals.

use vstd::prelude::*;

verus! {

/// The ASCII digit for `d` (0..=9) or lower-case hex digit (10..=15).
pub open spec fn digit_char(d: nat) -> char {
    if d < 10 {
        ((d + 48) as u8) as char
    } else {
        ((d + 87) as u8) as char
    }
}

/// Decimal numeral of `n`, without leading zeros.
pub open spec fn decimal(n: nat) -> Seq<char>
    decreases n,
{
    if n < 10 {
        seq![digit_char(n)]
    } else {
        decimal(n / 10).push(digit_char(n % 10))
    }
}

/// Decimal numeral of `n`, left-padded with zeros to at least `width` digits.
pub open spec fn decimal_padded(n: nat, width: nat) -> Seq<char>
    decreases width,
{
    if decimal(n).len() >= width || width == 0 {
        decimal(n)
    } else {
        seq!['0'] + decimal_padded(n, (width - 1) as nat)
    }
}

/// Lower-case hexadecimal numeral of `n`, without leading zeros.
pub open spec fn hex(n: nat) -> Seq<char>
    decreases n,
{
    if n < 16 {
        seq![digit_char(n)]
    } else {
        hex(n / 16).push(digit_char(n % 16))
    }
}

/// Lower-case hexadecimal numeral of `n`, left-padded with zeros to at
/// least `width` digits.
pub open spec fn hex_padded(n: nat, width: nat) -> Seq<char>
    decreases width,
{
    if hex(n).len() >= width || width == 0 {
        hex(n)
    } else {
        seq!['0'] + hex_padded(n, (width - 1) as nat)
    }
}

/// Appends one character (std `String::push`).
#[verifier::external_body]
pub(crate) fn push_char(s: &mut String, c: char)
    ensures
        final(s)@ == old(s)@.push(c),
{
    s.push(c);
}

/// The digit character for `d`.
pub fn digit(d: u64) -> (c: char)
    requires
        d < 16,
    ensures
        c == digit_char(d as nat),
{
    if d < 10 {
        ((d as u8) + 48u8) as char
    } else {
        ((d as u8) + 87u8) as char
    }
}

/// Appends the decimal numeral of `n`.
pub fn push_decimal(s: &mut String, n: u128)
    ensures
        final(s)@ == old(s)@ + decimal(n as nat),
    decreases n,
{
    if n >= 10 {
        push_decimal(s, n / 10);
    }
    let c = digit((n % 10) as u64);
    push_char(s, c);
    proof {
        if n >= 10 {
            assert(decimal(n as nat) == decimal((n / 10) as nat).push(digit_char((n % 10) as nat)));
        } else {
            assert(decimal(n as nat) == seq![digit_char(n as nat)]);
        }
    }
}

} // verus!
