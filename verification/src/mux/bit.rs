//! Adders, multiplexers and demultiplexers on bits.

use crate::bit::{bit_value, lemma_bits_value_2, lemma_bits_value_4, lemma_bits_value_8,
    lemma_weights, select_index, weight, Bit};
use crate::mux::{group16, group4, selects};
use vstd::prelude::*;

verus! {

/// Adds two bits; returns the sum bit and the carry bit.
pub fn half_adder(left: Bit, right: Bit) -> (r: (Bit, Bit))
    ensures
        r.0@ == (left@ != right@),
        r.1@ == (left@ && right@),
        bit_value(r.0) + 2 * bit_value(r.1) == bit_value(left) + bit_value(right),
{
    (left.xor(right), left.and(right))
}

/// Adds three bits, one of them a carry; returns the sum bit and the new carry bit.
pub fn full_adder(left: Bit, right: Bit, carry: Bit) -> (r: (Bit, Bit))
    ensures
        r.0@ == ((left@ != right@) != carry@),
        r.1@ == ((left@ && right@) || (left@ && carry@) || (right@ && carry@)),
        bit_value(r.0) + 2 * bit_value(r.1) == bit_value(left) + bit_value(right) + bit_value(carry),
{
    (left.xor(right).xor(carry), left.xor(right).and(carry).or(left.and(right)))
}

/// Returns the left bit if `select` is low, the right bit otherwise.
pub fn mux(left: Bit, right: Bit, select: Bit) -> (r: Bit)
    ensures
        r == if select@ { right } else { left },
{
    left.and(select.not()).or(right.and(select))
}

/// Returns the input that `select` resolves to: `select[0]` weighs 1, `select[1]` weighs 2.
pub fn mux4(input: [Bit; 4], select: [Bit; 2]) -> (r: Bit)
    ensures
        0 <= select_index(select@) < 4,
        r == input[select_index(select@)],
{
    proof {
        lemma_bits_value_2(select@);
    }
    mux(mux(input[0], input[1], select[0]), mux(input[2], input[3], select[0]), select[1])
}

/// Returns the input that `select` resolves to; select bit `i` weighs two to the power `i`.
pub fn mux16(input: [Bit; 16], select: [Bit; 4]) -> (r: Bit)
    ensures
        0 <= select_index(select@) < 16,
        r == input[select_index(select@)],
{
    let low = [select[0], select[1]];
    let high = [select[2], select[3]];
    proof {
        lemma_bits_value_2(low@);
        lemma_bits_value_2(high@);
        lemma_bits_value_4(select@);
    }
    let mut inner = [Bit::Low; 4];
    let mut i: usize = 0;
    while i < 4
        invariant
            i <= 4,
            0 <= select_index(low@) < 4,
            forall|j: int| 0 <= j < i ==> inner[j] == input[4 * j + select_index(low@)],
        decreases 4 - i,
    {
        inner[i] = mux4(group4(&input, i), low);
        i += 1;
    }
    mux4(inner, high)
}

/// Returns the input that `select` resolves to; select bit `i` weighs two to the power `i`.
pub fn mux256(input: [Bit; 256], select: [Bit; 8]) -> (r: Bit)
    ensures
        0 <= select_index(select@) < 256,
        r == input[select_index(select@)],
{
    let low = [select[0], select[1], select[2], select[3]];
    let high = [select[4], select[5], select[6], select[7]];
    proof {
        lemma_bits_value_4(low@);
        lemma_bits_value_4(high@);
        lemma_bits_value_8(select@);
    }
    let mut inner = [Bit::Low; 16];
    let mut i: usize = 0;
    while i < 16
        invariant
            i <= 16,
            0 <= select_index(low@) < 16,
            forall|j: int| 0 <= j < i ==> inner[j] == input[16 * j + select_index(low@)],
        decreases 16 - i,
    {
        inner[i] = mux16(group16(&input, i), low);
        i += 1;
    }
    mux16(inner, high)
}

/// Hands the input to the left output if `select` is low, to the right output otherwise;
/// the other output is low.
pub fn dmux(input: Bit, select: Bit) -> (r: (Bit, Bit))
    ensures
        r.0 == if select@ { Bit::Low } else { input },
        r.1 == if select@ { input } else { Bit::Low },
{
    (input.and(select.not()), input.and(select))
}

/// Hands the input to the output that `select` resolves to; every other output is low.
pub fn dmux4(input: Bit, select: [Bit; 2]) -> (r: [Bit; 4])
    ensures
        0 <= select_index(select@) < 4,
        forall|k: int| 0 <= k < 4 ==> r[k] == if k == select_index(select@) { input } else { Bit::Low },
{
    proof {
        lemma_weights();
        lemma_bits_value_2(select@);
    }
    let mut out = [Bit::Low; 4];
    let mut i: usize = 0;
    while i < 4
        invariant
            i <= 4,
            weight(2) == 4,
            forall|k: int|
                0 <= k < i ==> out[k] == if k == select_index(select@) { input } else { Bit::Low },
        decreases 4 - i,
    {
        out[i] = Bit::from(selects(&select, i as u8)).and(input);
        i += 1;
    }
    out
}

/// Hands the input to the output that `select` resolves to; every other output is low.
pub fn dmux16(input: Bit, select: [Bit; 4]) -> (r: [Bit; 16])
    ensures
        0 <= select_index(select@) < 16,
        forall|k: int| 0 <= k < 16 ==> r[k] == if k == select_index(select@) { input } else { Bit::Low },
{
    proof {
        lemma_weights();
        lemma_bits_value_4(select@);
    }
    let mut out = [Bit::Low; 16];
    let mut i: usize = 0;
    while i < 16
        invariant
            i <= 16,
            weight(4) == 16,
            forall|k: int|
                0 <= k < i ==> out[k] == if k == select_index(select@) { input } else { Bit::Low },
        decreases 16 - i,
    {
        out[i] = Bit::from(selects(&select, i as u8)).and(input);
        i += 1;
    }
    out
}

/// Hands the input to the output that `select` resolves to; every other output is low.
pub fn dmux256(input: Bit, select: [Bit; 8]) -> (r: [Bit; 256])
    ensures
        0 <= select_index(select@) < 256,
        forall|k: int| 0 <= k < 256 ==> r[k] == if k == select_index(select@) { input } else { Bit::Low },
{
    proof {
        lemma_weights();
        lemma_bits_value_8(select@);
    }
    let mut out = [Bit::Low; 256];
    let mut i: usize = 0;
    while i < 256
        invariant
            i <= 256,
            weight(8) == 256,
            forall|k: int|
                0 <= k < i ==> out[k] == if k == select_index(select@) { input } else { Bit::Low },
        decreases 256 - i,
    {
        out[i] = Bit::from(selects(&select, i as u8)).and(input);
        i += 1;
    }
    out
}

} // verus!
