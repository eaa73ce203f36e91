//! The texts of the errors that carry numbers.
use vstd::prelude::*;

verus! {

/// The character of decimal or hexadecimal digit `d` (upper case).
pub open spec fn digit_char(d: nat) -> char {
    if d < 10 {
        (48 + d) as char
    } else {
        (55 + d) as char
    }
}

/// The decimal digits of `n`, without leading zeros.
pub open spec fn decimal(n: nat) -> Seq<char>
    decreases n,
{
    if n < 10 {
        seq![digit_char(n)]
    } else {
        decimal(n / 10).push(digit_char(n % 10))
    }
}

/// The eight upper-case hexadecimal digits of the 32-bit word `n`.
pub open spec fn hex8(n: u32) -> Seq<char> {
    Seq::new(
        8,
        |i: int| digit_char(((n as nat) / vstd::arithmetic::power::pow(16, (7 - i) as nat) as nat) % 16),
    )
}

/// The text of a quantum whose decoder read `read` compressed bytes of the
/// `expected` that its header gives.
pub open spec fn read_mismatch_text(read: usize, expected: usize) -> Seq<char> {
    "Decompressed data does not match header: "@ + decimal(read as nat) + " != "@ + decimal(
        expected as nat,
    )
}

/// The text of a quantum whose CRC is `expected` and whose compressed bytes
/// have the CRC `got`.
pub open spec fn crc_mismatch_text(expected: u32, got: u32) -> Seq<char> {
    "CRC mismatch: expected "@ + hex8(expected) + ", got "@ + hex8(got)
}

/// The text of a quantum whose decoder read `read` compressed bytes of the
/// `expected` that its header gives.
///
/// Trusted: `format!` with `{}` renders a `usize` as its decimal digits, with
/// no sign, padding or leading zeros.
#[verifier::external_body]
pub(crate) fn read_mismatch_message(read: usize, expected: usize) -> (r: String)
    ensures
        r@ == read_mismatch_text(read, expected),
{
    format!("Decompressed data does not match header: {} != {}", read, expected)
}

/// The text of a quantum whose CRC is `expected` and whose compressed bytes
/// have the CRC `got`.
///
/// Trusted: `format!` with `{:08X}` renders a `u32` as upper-case hexadecimal
/// digits, padded with zeros to eight, which no `u32` exceeds.
#[verifier::external_body]
pub(crate) fn crc_mismatch_message(expected: u32, got: u32) -> (r: String)
    ensures
        r@ == crc_mismatch_text(expected, got),
{
    format!("CRC mismatch: expected {expected:08X}, got {got:08X}")
}

} // verus!
