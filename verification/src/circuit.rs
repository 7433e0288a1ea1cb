//! Byte arithmetic as free-standing circuits.

use crate::bit::{bit_value, Bit};
use crate::byte::Byte;
use vstd::prelude::*;

verus! {

/// Adds two bytes and the carry bit; returns the sum modulo 256 and the carry out.
pub fn byte_add_with_carry(left: Byte, right: Byte, carry: Bit) -> (r: (Byte, Bit))
    ensures
        r.0@ == (left@ + right@ + bit_value(carry)) % 256,
        r.1@ == (left@ + right@ + bit_value(carry) >= 256),
{
    left.add_with_carry(right, carry)
}

/// Adds two bytes with no carry in; returns the sum modulo 256 and the carry out.
pub fn byte_add(left: Byte, right: Byte) -> (r: (Byte, Bit))
    ensures
        r.0@ == (left@ + right@) % 256,
        r.1@ == (left@ + right@ >= 256),
{
    byte_add_with_carry(left, right, Bit::Low)
}

/// Subtracts `right` from `left` by adding its complement and one; returns the
/// difference modulo 256, and a carry that is high when nothing had to be borrowed.
pub fn byte_sub(left: Byte, right: Byte) -> (r: (Byte, Bit))
    ensures
        r.0@ == (left@ - right@) % 256,
        r.1@ == (left@ >= right@),
{
    byte_add_with_carry(left, right.not(), Bit::High)
}

/// Subtracts `right` and the borrow bit `carry` from `left`; returns the difference
/// modulo 256 and the carries of the two subtractions joined by `or`, which is always
/// high.
pub fn byte_sub_with_carry(left: Byte, right: Byte, carry: Bit) -> (r: (Byte, Bit))
    ensures
        r.0@ == (left@ - right@ - bit_value(carry)) % 256,
        r.1 == Bit::High,
{
    left.sub_with_carry(right, carry)
}

} // verus!
