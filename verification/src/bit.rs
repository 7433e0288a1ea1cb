//! The bit datatype and its gates, all derived from NAND.

use vstd::prelude::*;

verus! {

/// The most primitive datatype; every other datatype is made of bits.
#[derive(Debug, Clone, Copy, PartialEq, Eq, Structural)]
pub enum Bit {
    /// Logical 0, boolean false.
    Low,
    /// Logical 1, boolean true.
    High,
}

impl View for Bit {
    type V = bool;

    /// A bit stands for the boolean that is true exactly when the bit is high.
    open spec fn view(&self) -> bool {
        *self == Bit::High
    }
}

/// The number that a bit stands for: 1 when high, 0 when low.
pub open spec fn bit_value(bit: Bit) -> int {
    if bit@ {
        1
    } else {
        0
    }
}

/// The weight of the bit at position `k` of a little-endian bit string: two to the power `k`.
pub open spec fn weight(k: nat) -> nat
    decreases k,
{
    if k == 0 {
        1
    } else {
        2 * weight((k - 1) as nat)
    }
}

/// The number that the lowest `n` bits of `bits` spell, with `bits[i]` weighing `weight(i)`.
pub open spec fn bits_value(bits: Seq<Bit>, n: nat) -> nat
    decreases n,
{
    if n == 0 {
        0
    } else {
        bits_value(bits, (n - 1) as nat) + if bits[n - 1]@ {
            weight((n - 1) as nat)
        } else {
            0
        }
    }
}

/// The index that a whole select word resolves to.
pub open spec fn select_index(select: Seq<Bit>) -> int {
    bits_value(select, select.len()) as int
}

/// The first nine weights, written out.
pub proof fn lemma_weights()
    ensures
        weight(0) == 1,
        weight(1) == 2,
        weight(2) == 4,
        weight(3) == 8,
        weight(4) == 16,
        weight(5) == 32,
        weight(6) == 64,
        weight(7) == 128,
        weight(8) == 256,
{
    reveal_with_fuel(weight, 10);
}

/// `n` bits spell a number below `weight(n)`.
pub proof fn lemma_bits_value_bound(bits: Seq<Bit>, n: nat)
    ensures
        bits_value(bits, n) < weight(n),
    decreases n,
{
    if n > 0 {
        lemma_bits_value_bound(bits, (n - 1) as nat);
    }
}

/// The value of the lowest `n` bits depends on those bits alone.
pub proof fn lemma_bits_value_agree(a: Seq<Bit>, b: Seq<Bit>, n: nat)
    requires
        forall|i: int| 0 <= i < n ==> a[i] == b[i],
    ensures
        bits_value(a, n) == bits_value(b, n),
    decreases n,
{
    if n > 0 {
        lemma_bits_value_agree(a, b, (n - 1) as nat);
    }
}

/// Two bit strings that spell the same number in their lowest `n` bits agree on each of them.
pub proof fn lemma_bits_value_injective(a: Seq<Bit>, b: Seq<Bit>, n: nat)
    requires
        bits_value(a, n) == bits_value(b, n),
    ensures
        forall|i: int| 0 <= i < n ==> a[i] == b[i],
    decreases n,
{
    if n > 0 {
        let m = (n - 1) as nat;
        lemma_bits_value_bound(a, m);
        lemma_bits_value_bound(b, m);
        lemma_bits_value_injective(a, b, m);
    }
}

/// Two select words of one width resolve to the same index only if they are the same
/// word, so distinct addresses of any width name distinct cells.
pub proof fn lemma_select_index_injective(a: Seq<Bit>, b: Seq<Bit>)
    requires
        a.len() == b.len(),
        select_index(a) == select_index(b),
    ensures
        a == b,
{
    lemma_bits_value_injective(a, b, a.len());
    assert(a =~= b);
}

/// The value of a select word of two bits, written out.
pub proof fn lemma_bits_value_2(bits: Seq<Bit>)
    ensures
        bits_value(bits, 2) == (if bits[0]@ { 1nat } else { 0 }) + (if bits[1]@ { 2nat } else { 0 }),
{
    reveal_with_fuel(bits_value, 3);
    lemma_weights();
}

/// The value of a select word of four bits, written out.
pub proof fn lemma_bits_value_4(bits: Seq<Bit>)
    ensures
        bits_value(bits, 4) == (if bits[0]@ { 1nat } else { 0 }) + (if bits[1]@ { 2nat } else { 0 })
            + (if bits[2]@ { 4nat } else { 0 }) + (if bits[3]@ { 8nat } else { 0 }),
{
    reveal_with_fuel(bits_value, 5);
    lemma_weights();
}

/// The value of a word of eight bits, written out.
pub proof fn lemma_bits_value_8(bits: Seq<Bit>)
    ensures
        bits_value(bits, 8) == (if bits[0]@ { 1nat } else { 0 }) + (if bits[1]@ { 2nat } else { 0 })
            + (if bits[2]@ { 4nat } else { 0 }) + (if bits[3]@ { 8nat } else { 0 }) + (if bits[4]@ {
            16nat
        } else {
            0
        }) + (if bits[5]@ { 32nat } else { 0 }) + (if bits[6]@ { 64nat } else { 0 }) + (if bits[7]@ {
            128nat
        } else {
            0
        }),
{
    reveal_with_fuel(bits_value, 9);
    lemma_weights();
}

/// The bits of `index`, lowest first, as many as `n`.
pub open spec fn index_bits(index: u8, n: nat) -> Seq<Bit> {
    Seq::new(n, |k: int| Bit::of((index >> (k as u8)) & 1 == 1))
}

proof fn lemma_spell_2(v: u8)
    by (bit_vector)
    requires
        v < 4,
    ensures
        v == (if (v >> 0u8) & 1 == 1 { 1u8 } else { 0u8 }) + (if (v >> 1u8) & 1 == 1 { 2u8 } else { 0u8 }),
{
}

proof fn lemma_spell_4(v: u8)
    by (bit_vector)
    requires
        v < 16,
    ensures
        v == (if (v >> 0u8) & 1 == 1 { 1u8 } else { 0u8 }) + (if (v >> 1u8) & 1 == 1 { 2u8 } else { 0u8 })
            + (if (v >> 2u8) & 1 == 1 { 4u8 } else { 0u8 }) + (if (v >> 3u8) & 1 == 1 { 8u8 } else { 0u8 }),
{
}

/// Every number below 256 is the sum of the weights of its high bits.
pub proof fn lemma_spell_8(v: u8)
    by (bit_vector)
    ensures
        v == (if (v >> 0u8) & 1 == 1 { 1u8 } else { 0u8 }) + (if (v >> 1u8) & 1 == 1 { 2u8 } else { 0u8 })
            + (if (v >> 2u8) & 1 == 1 { 4u8 } else { 0u8 }) + (if (v >> 3u8) & 1 == 1 { 8u8 } else { 0u8 })
            + (if (v >> 4u8) & 1 == 1 { 16u8 } else { 0u8 }) + (if (v >> 5u8) & 1 == 1 { 32u8 } else { 0u8 })
            + (if (v >> 6u8) & 1 == 1 { 64u8 } else { 0u8 }) + (if (v >> 7u8) & 1 == 1 { 128u8 } else { 0u8 }),
{
}

/// A number below `weight(n)` is what its lowest `n` bits spell, for the widths of the fabric.
pub proof fn lemma_index_bits_value(index: u8, n: nat)
    requires
        n == 2 || n == 4 || n == 8,
        index < weight(n),
    ensures
        bits_value(index_bits(index, n), n) == index,
{
    lemma_weights();
    let bits = index_bits(index, n);
    if n == 2 {
        lemma_spell_2(index);
        lemma_bits_value_2(bits);
    } else if n == 4 {
        lemma_spell_4(index);
        lemma_bits_value_4(bits);
    } else {
        lemma_spell_8(index);
        lemma_bits_value_8(bits);
    }
}

/// A select word resolves to `index` exactly when it holds the bits of `index`.
pub proof fn lemma_select_index_bits(select: Seq<Bit>, index: u8)
    requires
        select.len() == 2 || select.len() == 4 || select.len() == 8,
        index < weight(select.len()),
    ensures
        (select_index(select) == index) <==> (forall|k: int|
            0 <= k < select.len() ==> select[k] == index_bits(index, select.len())[k]),
{
    let n = select.len();
    let bits = index_bits(index, n);
    lemma_index_bits_value(index, n);
    if select_index(select) == index {
        lemma_bits_value_injective(select, bits, n);
    }
    if forall|k: int| 0 <= k < n ==> select[k] == bits[k] {
        lemma_bits_value_agree(select, bits, n);
    }
}

impl Bit {
    /// The bit that stands for a boolean.
    pub open spec fn of(value: bool) -> Bit {
        if value {
            Bit::High
        } else {
            Bit::Low
        }
    }

    /// The primitive gate, from which every other gate and circuit is derived: low only
    /// when both inputs are high.
    pub fn nand(self, other: Self) -> (r: Self)
        ensures
            r@ == !(self@ && other@),
    {
        match (self, other) {
            (Bit::High, Bit::High) => Bit::Low,
            _ => Bit::High,
        }
    }

    /// Inverts the bit.
    pub fn not(self) -> (r: Self)
        ensures
            r@ == !self@,
    {
        self.nand(self)
    }

    /// High when both bits are high.
    pub fn and(self, other: Self) -> (r: Self)
        ensures
            r@ == (self@ && other@),
    {
        self.nand(other).not()
    }

    /// High when either bit or both are high.
    pub fn or(self, other: Self) -> (r: Self)
        ensures
            r@ == (self@ || other@),
    {
        self.not().nand(other.not())
    }

    /// High when neither bit is high.
    pub fn nor(self, other: Self) -> (r: Self)
        ensures
            r@ == !(self@ || other@),
    {
        self.or(other).not()
    }

    /// High when both bits are equal.
    pub fn xnor(self, other: Self) -> (r: Self)
        ensures
            r@ == (self@ == other@),
    {
        self.nand(other).nand(self.or(other))
    }

    /// High when exactly one of the bits is high.
    pub fn xor(self, other: Self) -> (r: Self)
        ensures
            r@ == (self@ != other@),
    {
        self.xnor(other).not()
    }
}

impl From<bool> for Bit {
    fn from(value: bool) -> (r: Self)
        ensures
            r@ == value,
    {
        if value {
            Bit::High
        } else {
            Bit::Low
        }
    }
}

impl vstd::std_specs::convert::FromSpecImpl<bool> for Bit {
    open spec fn obeys_from_spec() -> bool {
        true
    }

    open spec fn from_spec(value: bool) -> Self {
        Bit::of(value)
    }
}

impl From<Bit> for bool {
    fn from(value: Bit) -> (r: Self) {
        match value {
            Bit::High => true,
            Bit::Low => false,
        }
    }
}

impl vstd::std_specs::convert::FromSpecImpl<Bit> for bool {
    open spec fn obeys_from_spec() -> bool {
        true
    }

    open spec fn from_spec(value: Bit) -> Self {
        value@
    }
}

impl core::ops::BitAnd for Bit {
    type Output = Bit;

    fn bitand(self, rhs: Self) -> (r: Bit)
        ensures
            r@ == (self@ && rhs@),
    {
        let r = self.and(rhs);
        r
    }
}

impl vstd::std_specs::ops::BitAndSpecImpl for Bit {
    open spec fn obeys_bitand_spec() -> bool {
        true
    }

    open spec fn bitand_req(self, rhs: Self) -> bool {
        true
    }

    open spec fn bitand_spec(self, rhs: Self) -> Bit {
        Bit::of(self@ && rhs@)
    }
}

impl core::ops::BitOr for Bit {
    type Output = Bit;

    fn bitor(self, rhs: Self) -> (r: Bit)
        ensures
            r@ == (self@ || rhs@),
    {
        let r = self.or(rhs);
        r
    }
}

impl vstd::std_specs::ops::BitOrSpecImpl for Bit {
    open spec fn obeys_bitor_spec() -> bool {
        true
    }

    open spec fn bitor_req(self, rhs: Self) -> bool {
        true
    }

    open spec fn bitor_spec(self, rhs: Self) -> Bit {
        Bit::of(self@ || rhs@)
    }
}

impl core::ops::BitXor for Bit {
    type Output = Bit;

    fn bitxor(self, rhs: Self) -> (r: Bit)
        ensures
            r@ == (self@ != rhs@),
    {
        let r = self.xor(rhs);
        r
    }
}

impl vstd::std_specs::ops::BitXorSpecImpl for Bit {
    open spec fn obeys_bitxor_spec() -> bool {
        true
    }

    open spec fn bitxor_req(self, rhs: Self) -> bool {
        true
    }

    open spec fn bitxor_spec(self, rhs: Self) -> Bit {
        Bit::of(self@ != rhs@)
    }
}

impl core::ops::Not for Bit {
    type Output = Bit;

    fn not(self) -> (r: Bit)
        ensures
            r@ == !self@,
    {
        let r = Bit::not(self);
        r
    }
}

impl vstd::std_specs::ops::NotSpecImpl for Bit {
    open spec fn obeys_not_spec() -> bool {
        true
    }

    open spec fn not_req(self) -> bool {
        true
    }

    open spec fn not_spec(self) -> Bit {
        Bit::of(!self@)
    }
}

impl core::ops::BitAndAssign for Bit {
    fn bitand_assign(&mut self, rhs: Self)
        ensures
            final(self)@ == (old(self)@ && rhs@),
    {
        *self = self.and(rhs);
    }
}

impl core::ops::BitOrAssign for Bit {
    fn bitor_assign(&mut self, rhs: Self)
        ensures
            final(self)@ == (old(self)@ || rhs@),
    {
        *self = self.or(rhs);
    }
}

impl core::ops::BitXorAssign for Bit {
    fn bitxor_assign(&mut self, rhs: Self)
        ensures
            final(self)@ == (old(self)@ != rhs@),
    {
        *self = self.xor(rhs);
    }
}

} // verus!
