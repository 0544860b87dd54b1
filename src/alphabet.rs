//! The 64-symbol output alphabet and the padding character.
use vstd::prelude::*;

verus! {

/// The character emitted for a slot whose bytes never arrived.
pub const PAD: u8 = 0x3d;

/// The symbol of a 6-bit value: `A`-`Z`, `a`-`z`, `0`-`9`, `+`, `/` in that order.
pub open spec fn symbol_of(v: int) -> u8
    recommends
        0 <= v < 64,
{
    if v < 26 {
        (0x41 + v) as u8
    } else if v < 52 {
        (0x61 + (v - 26)) as u8
    } else if v < 62 {
        (0x30 + (v - 52)) as u8
    } else if v == 62 {
        0x2b
    } else {
        0x2f
    }
}

/// Whether a byte is one of the 64 symbols (the padding character is not).
pub open spec fn is_symbol(c: u8) -> bool {
    (0x41 <= c <= 0x5a) || (0x61 <= c <= 0x7a) || (0x30 <= c <= 0x39) || c == 0x2b || c == 0x2f
}

/// Every 6-bit value maps to a symbol, and never to the padding character.
pub proof fn lemma_symbol_of_is_symbol(v: int)
    requires
        0 <= v < 64,
    ensures
        is_symbol(symbol_of(v)),
        symbol_of(v) != PAD,
{
}

/// Looks up the symbol of a 6-bit value.
pub fn symbol(v: u8) -> (c: u8)
    requires
        v < 64,
    ensures
        c == symbol_of(v as int),
        is_symbol(c),
{
    if v < 26 {
        0x41 + v
    } else if v < 52 {
        0x61 + (v - 26)
    } else if v < 62 {
        0x30 + (v - 52)
    } else if v == 62 {
        0x2b
    } else {
        0x2f
    }
}

} // verus!
