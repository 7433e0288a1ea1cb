//! The byte datatype: eight bits, lowest first, with its gates and its arithmetic.

use crate::bit::{bit_value, bits_value, index_bits, lemma_bits_value_8, lemma_bits_value_agree,
    lemma_bits_value_bound, lemma_select_index_bits, lemma_spell_8, lemma_weights, select_index,
    weight, Bit};
use crate::mux::bit::full_adder;
use vstd::prelude::*;
use vstd::std_specs::convert::FromSpec;

verus! {

/// The smallest addressable datatype: eight bits, the least significant at index 0.
#[derive(Debug, Clone, Copy)]
pub struct Byte {
    /// The bits; the bit at index `i` weighs two to the power `i`.
    pub bits: [Bit; 8],
}

impl View for Byte {
    type V = u8;

    /// A byte stands for the number that its bits spell.
    open spec fn view(&self) -> u8 {
        bits_value(self.bits@, 8) as u8
    }
}

/// The bit of `value` at position `k`.
pub open spec fn bit_of(value: u8, k: u8) -> Bit {
    Bit::of((value >> k) & 1 == 1)
}

proof fn lemma_shift_weight(i: u8)
    requires
        i < 8,
    ensures
        (1u8 << i) == weight(i as nat),
{
    lemma_weights();
    assert((1u8 << i) == if i == 0 {
        1u8
    } else if i == 1 {
        2u8
    } else if i == 2 {
        4u8
    } else if i == 3 {
        8u8
    } else if i == 4 {
        16u8
    } else if i == 5 {
        32u8
    } else if i == 6 {
        64u8
    } else {
        128u8
    }) by (bit_vector)
        requires
            i < 8,
    ;
}

proof fn lemma_gate_bits(x: u8, y: u8, k: u8)
    by (bit_vector)
    requires
        k < 8,
    ensures
        ((!x >> k) & 1 == 1) == !((x >> k) & 1 == 1),
        ((!(x & y) >> k) & 1 == 1) == !(((x >> k) & 1 == 1) && ((y >> k) & 1 == 1)),
        (((x & y) >> k) & 1 == 1) == (((x >> k) & 1 == 1) && ((y >> k) & 1 == 1)),
        (((x | y) >> k) & 1 == 1) == (((x >> k) & 1 == 1) || ((y >> k) & 1 == 1)),
        ((!(x | y) >> k) & 1 == 1) == !(((x >> k) & 1 == 1) || ((y >> k) & 1 == 1)),
        (((x ^ y) >> k) & 1 == 1) == (((x >> k) & 1 == 1) != ((y >> k) & 1 == 1)),
        ((!(x ^ y) >> k) & 1 == 1) == (((x >> k) & 1 == 1) == ((y >> k) & 1 == 1)),
{
}

impl Byte {
    /// The byte that stands for `value`.
    pub open spec fn of(value: u8) -> Byte {
        Byte {
            bits: [
                bit_of(value, 0),
                bit_of(value, 1),
                bit_of(value, 2),
                bit_of(value, 3),
                bit_of(value, 4),
                bit_of(value, 5),
                bit_of(value, 6),
                bit_of(value, 7),
            ],
        }
    }

    /// The bits of a byte spell a number below 256, so the view loses nothing.
    pub proof fn lemma_view_is_value(self)
        ensures
            self@ == bits_value(self.bits@, 8),
            self@ == select_index(self.bits@),
    {
        lemma_weights();
        lemma_bits_value_bound(self.bits@, 8);
    }

    /// Going from a number to its byte and back gives the number again.
    pub proof fn lemma_of_view(value: u8)
        ensures
            Byte::of(value)@ == value,
    {
        lemma_bits_value_8(Byte::of(value).bits@);
        lemma_spell_8(value);
    }

    /// Going from a byte to its number and back gives the byte again, bit for bit.
    pub proof fn lemma_view_of(self)
        ensures
            Byte::of(self@) == self,
    {
        self.lemma_view_is_value();
        lemma_weights();
        lemma_select_index_bits(self.bits@, self@);
        assert forall|k: int| 0 <= k < 8 implies Byte::of(self@).bits[k] == self.bits[k] by {
            assert(self.bits@[k] == index_bits(self@, 8)[k]);
        }
        assert(Byte::of(self@).bits =~= self.bits);
    }

    /// Two bytes that stand for the same number are the same byte.
    pub proof fn lemma_view_injective(self, other: Byte)
        requires
            self@ == other@,
        ensures
            self == other,
    {
        self.lemma_view_of();
        other.lemma_view_of();
    }

    /// A byte whose bits are those of `value` stands for `value`.
    pub proof fn lemma_bits_give_view(self, value: u8)
        requires
            forall|k: u8| 0 <= k < 8 ==> self.bits[k as int] == #[trigger] bit_of(value, k),
        ensures
            self@ == value,
    {
        assert(bit_of(value, 0) == self.bits[0]);
        assert(bit_of(value, 1) == self.bits[1]);
        assert(bit_of(value, 2) == self.bits[2]);
        assert(bit_of(value, 3) == self.bits[3]);
        assert(bit_of(value, 4) == self.bits[4]);
        assert(bit_of(value, 5) == self.bits[5]);
        assert(bit_of(value, 6) == self.bits[6]);
        assert(bit_of(value, 7) == self.bits[7]);
        assert(Byte::of(value).bits =~= self.bits);
        Byte::lemma_of_view(value);
    }

    /// Applies `Bit::nand` to the bits of both bytes, position by position.
    pub fn nand(&self, other: &Self) -> (r: Self)
        ensures
            forall|i: int| 0 <= i < 8 ==> r.bits[i]@ == !(self.bits[i]@ && other.bits[i]@),
            r@ == !(self@ & other@),
    {
        let mut bits = [Bit::Low; 8];
        let mut i: usize = 0;
        while i < 8
            invariant
                i <= 8,
                forall|j: int| 0 <= j < i ==> bits[j]@ == !(self.bits[j]@ && other.bits[j]@),
            decreases 8 - i,
        {
            bits[i] = self.bits[i].nand(other.bits[i]);
            i += 1;
        }
        let r = Byte { bits };
        proof {
            self.lemma_view_of();
            other.lemma_view_of();
            assert forall|k: u8| 0 <= k < 8 implies r.bits[k as int] == #[trigger] bit_of(
                !(self@ & other@),
                k,
            ) by {
                lemma_gate_bits(self@, other@, k);
            }
            r.lemma_bits_give_view(!(self@ & other@));
        }
        r
    }

    /// Applies `Bit::and` to the bits of both bytes, position by position.
    pub fn and(&self, other: &Self) -> (r: Self)
        ensures
            forall|i: int| 0 <= i < 8 ==> r.bits[i]@ == (self.bits[i]@ && other.bits[i]@),
            r@ == self@ & other@,
    {
        let mut bits = [Bit::Low; 8];
        let mut i: usize = 0;
        while i < 8
            invariant
                i <= 8,
                forall|j: int| 0 <= j < i ==> bits[j]@ == (self.bits[j]@ && other.bits[j]@),
            decreases 8 - i,
        {
            bits[i] = self.bits[i].and(other.bits[i]);
            i += 1;
        }
        let r = Byte { bits };
        proof {
            self.lemma_view_of();
            other.lemma_view_of();
            assert forall|k: u8| 0 <= k < 8 implies r.bits[k as int] == #[trigger] bit_of(
                self@ & other@,
                k,
            ) by {
                lemma_gate_bits(self@, other@, k);
            }
            r.lemma_bits_give_view(self@ & other@);
        }
        r
    }

    /// Applies `Bit::or` to the bits of both bytes, position by position.
    pub fn or(&self, other: &Self) -> (r: Self)
        ensures
            forall|i: int| 0 <= i < 8 ==> r.bits[i]@ == (self.bits[i]@ || other.bits[i]@),
            r@ == self@ | other@,
    {
        let mut bits = [Bit::Low; 8];
        let mut i: usize = 0;
        while i < 8
            invariant
                i <= 8,
                forall|j: int| 0 <= j < i ==> bits[j]@ == (self.bits[j]@ || other.bits[j]@),
            decreases 8 - i,
        {
            bits[i] = self.bits[i].or(other.bits[i]);
            i += 1;
        }
        let r = Byte { bits };
        proof {
            self.lemma_view_of();
            other.lemma_view_of();
            assert forall|k: u8| 0 <= k < 8 implies r.bits[k as int] == #[trigger] bit_of(
                self@ | other@,
                k,
            ) by {
                lemma_gate_bits(self@, other@, k);
            }
            r.lemma_bits_give_view(self@ | other@);
        }
        r
    }

    /// Applies `Bit::nor` to the bits of both bytes, position by position.
    pub fn nor(&self, other: &Self) -> (r: Self)
        ensures
            forall|i: int| 0 <= i < 8 ==> r.bits[i]@ == !(self.bits[i]@ || other.bits[i]@),
            r@ == !(self@ | other@),
    {
        let mut bits = [Bit::Low; 8];
        let mut i: usize = 0;
        while i < 8
            invariant
                i <= 8,
                forall|j: int| 0 <= j < i ==> bits[j]@ == !(self.bits[j]@ || other.bits[j]@),
            decreases 8 - i,
        {
            bits[i] = self.bits[i].nor(other.bits[i]);
            i += 1;
        }
        let r = Byte { bits };
        proof {
            self.lemma_view_of();
            other.lemma_view_of();
            assert forall|k: u8| 0 <= k < 8 implies r.bits[k as int] == #[trigger] bit_of(
                !(self@ | other@),
                k,
            ) by {
                lemma_gate_bits(self@, other@, k);
            }
            r.lemma_bits_give_view(!(self@ | other@));
        }
        r
    }

    /// Applies `Bit::xnor` to the bits of both bytes, position by position.
    pub fn xnor(&self, other: &Self) -> (r: Self)
        ensures
            forall|i: int| 0 <= i < 8 ==> r.bits[i]@ == (self.bits[i]@ == other.bits[i]@),
            r@ == !(self@ ^ other@),
    {
        let mut bits = [Bit::Low; 8];
        let mut i: usize = 0;
        while i < 8
            invariant
                i <= 8,
                forall|j: int| 0 <= j < i ==> bits[j]@ == (self.bits[j]@ == other.bits[j]@),
            decreases 8 - i,
        {
            bits[i] = self.bits[i].xnor(other.bits[i]);
            i += 1;
        }
        let r = Byte { bits };
        proof {
            self.lemma_view_of();
            other.lemma_view_of();
            assert forall|k: u8| 0 <= k < 8 implies r.bits[k as int] == #[trigger] bit_of(
                !(self@ ^ other@),
                k,
            ) by {
                lemma_gate_bits(self@, other@, k);
            }
            r.lemma_bits_give_view(!(self@ ^ other@));
        }
        r
    }

    /// Applies `Bit::xor` to the bits of both bytes, position by position.
    pub fn xor(&self, other: &Self) -> (r: Self)
        ensures
            forall|i: int| 0 <= i < 8 ==> r.bits[i]@ == (self.bits[i]@ != other.bits[i]@),
            r@ == self@ ^ other@,
    {
        let mut bits = [Bit::Low; 8];
        let mut i: usize = 0;
        while i < 8
            invariant
                i <= 8,
                forall|j: int| 0 <= j < i ==> bits[j]@ == (self.bits[j]@ != other.bits[j]@),
            decreases 8 - i,
        {
            bits[i] = self.bits[i].xor(other.bits[i]);
            i += 1;
        }
        let r = Byte { bits };
        proof {
            self.lemma_view_of();
            other.lemma_view_of();
            assert forall|k: u8| 0 <= k < 8 implies r.bits[k as int] == #[trigger] bit_of(
                self@ ^ other@,
                k,
            ) by {
                lemma_gate_bits(self@, other@, k);
            }
            r.lemma_bits_give_view(self@ ^ other@);
        }
        r
    }

    /// Inverts every bit of the byte.
    pub fn not(&self) -> (r: Self)
        ensures
            forall|i: int| 0 <= i < 8 ==> r.bits[i]@ == !self.bits[i]@,
            r@ == !self@,
            r@ == 255 - self@,
    {
        let mut bits = [Bit::Low; 8];
        let mut i: usize = 0;
        while i < 8
            invariant
                i <= 8,
                forall|j: int| 0 <= j < i ==> bits[j]@ == !self.bits[j]@,
            decreases 8 - i,
        {
            bits[i] = self.bits[i].not();
            i += 1;
        }
        let r = Byte { bits };
        proof {
            self.lemma_view_of();
            assert forall|k: u8| 0 <= k < 8 implies r.bits[k as int] == #[trigger] bit_of(
                !self@,
                k,
            ) by {
                lemma_gate_bits(self@, self@, k);
            }
            r.lemma_bits_give_view(!self@);
            let v = self@;
            assert(!v == 255 - v) by (bit_vector);
        }
        r
    }

    /// Adds two bytes and a carry bit, rippling the carry from the lowest bit to the
    /// highest; returns the sum modulo 256 and the carry out of the highest bit.
    pub fn add_with_carry(self, right: Self, carry: Bit) -> (r: (Self, Bit))
        ensures
            r.0@ == (self@ + right@ + bit_value(carry)) % 256,
            r.1@ == (self@ + right@ + bit_value(carry) >= 256),
    {
        let mut bits = [Bit::Low; 8];
        let mut rippled = carry;
        let mut i: usize = 0;
        while i < 8
            invariant
                i <= 8,
                bits_value(bits@, i as nat) + (if rippled@ { weight(i as nat) } else { 0 })
                    == bits_value(self.bits@, i as nat) + bits_value(right.bits@, i as nat)
                    + bit_value(carry),
            decreases 8 - i,
        {
            let ghost before = bits@;
            let (sum, next) = full_adder(self.bits[i], right.bits[i], rippled);
            bits[i] = sum;
            rippled = next;
            proof {
                lemma_bits_value_agree(before, bits@, i as nat);
            }
            i += 1;
        }
        let sum = Byte { bits };
        proof {
            lemma_weights();
            sum.lemma_view_is_value();
            self.lemma_view_is_value();
            right.lemma_view_is_value();
        }
        (sum, rippled)
    }

    /// Subtracts `right` and a borrow bit from the byte, by two subtractions in a row:
    /// first the borrow, then `right`. Returns the difference modulo 256 and the two
    /// carries joined by `or`; one of the two is always high.
    pub fn sub_with_carry(self, right: Self, carry: Bit) -> (r: (Self, Bit))
        ensures
            r.0@ == (self@ - right@ - bit_value(carry)) % 256,
            r.1@ == (self@ >= bit_value(carry) || (self@ - bit_value(carry)) % 256 >= right@),
            r.1 == Bit::High,
    {
        let mut carry_bits = [Bit::Low; 8];
        carry_bits[0] = carry;
        let borrow = Byte { bits: carry_bits };
        proof {
            lemma_bits_value_8(borrow.bits@);
            borrow.lemma_view_is_value();
        }
        let (lowered, first) = self - borrow;
        let (result, second) = lowered - right;
        (result, first.or(second))
    }
}

impl From<u8> for Byte {
    /// Spreads the number over eight bits, the least significant first.
    fn from(value: u8) -> (r: Self)
        ensures
            r@ == value,
    {
        let mut bits = [Bit::Low; 8];
        let mut i: usize = 0;
        while i < 8
            invariant
                i <= 8,
                forall|k: u8| 0 <= k < i ==> bits[k as int] == #[trigger] bit_of(value, k),
            decreases 8 - i,
        {
            bits[i] = Bit::from((value >> i) & 1 == 1);
            proof {
                let k = i as u8;
                assert((value >> i) == (value >> k)) by (bit_vector)
                    requires
                        k == i,
                        i < 8,
                ;
            }
            i += 1;
        }
        let r = Byte { bits };
        proof {
            r.lemma_bits_give_view(value);
            r.lemma_view_of();
        }
        r
    }
}

impl vstd::std_specs::convert::FromSpecImpl<u8> for Byte {
    open spec fn obeys_from_spec() -> bool {
        true
    }

    open spec fn from_spec(value: u8) -> Self {
        Byte::of(value)
    }
}

impl From<Byte> for u8 {
    /// Gathers the bits into the number that they spell.
    fn from(value: Byte) -> (r: Self) {
        let mut result: u8 = 0;
        let mut i: usize = 0;
        while i < 8
            invariant
                i <= 8,
                result == bits_value(value.bits@, i as nat),
            decreases 8 - i,
        {
            let bit: u8 = if bool::from(value.bits[i]) {
                1
            } else {
                0
            };
            proof {
                let k = i as u8;
                lemma_shift_weight(k);
                lemma_bits_value_bound(value.bits@, i as nat);
                assert((result | (bit << i)) == result + (if bit == 1 {
                    1u8 << k
                } else {
                    0u8
                })) by (bit_vector)
                    requires
                        k == i,
                        i < 8,
                        result < (1u8 << k),
                        bit == 0 || bit == 1,
                ;
            }
            result = result | (bit << i);
            i += 1;
        }
        proof {
            value.lemma_view_is_value();
        }
        result
    }
}

impl vstd::std_specs::convert::FromSpecImpl<Byte> for u8 {
    open spec fn obeys_from_spec() -> bool {
        true
    }

    open spec fn from_spec(value: Byte) -> Self {
        value@
    }
}

impl From<[Bit; 8]> for Byte {
    fn from(bits: [Bit; 8]) -> (r: Self) {
        Byte { bits }
    }
}

impl vstd::std_specs::convert::FromSpecImpl<[Bit; 8]> for Byte {
    open spec fn obeys_from_spec() -> bool {
        true
    }

    open spec fn from_spec(bits: [Bit; 8]) -> Self {
        Byte { bits }
    }
}

impl From<Byte> for [Bit; 8] {
    fn from(value: Byte) -> (r: Self) {
        value.bits
    }
}

impl vstd::std_specs::convert::FromSpecImpl<Byte> for [Bit; 8] {
    open spec fn obeys_from_spec() -> bool {
        true
    }

    open spec fn from_spec(value: Byte) -> Self {
        value.bits
    }
}

impl core::ops::Add for Byte {
    type Output = (Byte, Bit);

    /// Adds two bytes with no carry in.
    fn add(self, rhs: Self) -> (r: (Byte, Bit))
        ensures
            r.0@ == (self@ + rhs@) % 256,
            r.1@ == (self@ + rhs@ >= 256),
    {
        let r = self.add_with_carry(rhs, Bit::Low);
        proof {
            r.0.lemma_view_of();
        }
        r
    }
}

impl vstd::std_specs::ops::AddSpecImpl for Byte {
    open spec fn obeys_add_spec() -> bool {
        true
    }

    open spec fn add_req(self, rhs: Self) -> bool {
        true
    }

    open spec fn add_spec(self, rhs: Self) -> (Byte, Bit) {
        (Byte::of(((self@ + rhs@) % 256) as u8), Bit::of(self@ + rhs@ >= 256))
    }
}

impl core::ops::Sub for Byte {
    type Output = (Byte, Bit);

    /// Subtracts `rhs` by adding its complement and one; the carry is high when nothing
    /// had to be borrowed.
    fn sub(self, rhs: Self) -> (r: (Byte, Bit))
        ensures
            r.0@ == (self@ - rhs@) % 256,
            r.1@ == (self@ >= rhs@),
    {
        let r = self.add_with_carry(rhs.not(), Bit::High);
        proof {
            r.0.lemma_view_of();
        }
        r
    }
}

impl vstd::std_specs::ops::SubSpecImpl for Byte {
    open spec fn obeys_sub_spec() -> bool {
        true
    }

    open spec fn sub_req(self, rhs: Self) -> bool {
        true
    }

    open spec fn sub_spec(self, rhs: Self) -> (Byte, Bit) {
        (Byte::of(((self@ - rhs@) % 256) as u8), Bit::of(self@ >= rhs@))
    }
}

impl core::ops::BitAnd for Byte {
    type Output = Byte;

    fn bitand(self, rhs: Self) -> (r: Byte)
        ensures
            r@ == self@ & rhs@,
    {
        let r = self.and(&rhs);
        proof {
            r.lemma_view_of();
        }
        r
    }
}

impl vstd::std_specs::ops::BitAndSpecImpl for Byte {
    open spec fn obeys_bitand_spec() -> bool {
        true
    }

    open spec fn bitand_req(self, rhs: Self) -> bool {
        true
    }

    open spec fn bitand_spec(self, rhs: Self) -> Byte {
        Byte::of(self@ & rhs@)
    }
}

impl core::ops::BitOr for Byte {
    type Output = Byte;

    fn bitor(self, rhs: Self) -> (r: Byte)
        ensures
            r@ == self@ | rhs@,
    {
        let r = self.or(&rhs);
        proof {
            r.lemma_view_of();
        }
        r
    }
}

impl vstd::std_specs::ops::BitOrSpecImpl for Byte {
    open spec fn obeys_bitor_spec() -> bool {
        true
    }

    open spec fn bitor_req(self, rhs: Self) -> bool {
        true
    }

    open spec fn bitor_spec(self, rhs: Self) -> Byte {
        Byte::of(self@ | rhs@)
    }
}

impl core::ops::BitXor for Byte {
    type Output = Byte;

    fn bitxor(self, rhs: Self) -> (r: Byte)
        ensures
            r@ == self@ ^ rhs@,
    {
        let r = self.xor(&rhs);
        proof {
            r.lemma_view_of();
        }
        r
    }
}

impl vstd::std_specs::ops::BitXorSpecImpl for Byte {
    open spec fn obeys_bitxor_spec() -> bool {
        true
    }

    open spec fn bitxor_req(self, rhs: Self) -> bool {
        true
    }

    open spec fn bitxor_spec(self, rhs: Self) -> Byte {
        Byte::of(self@ ^ rhs@)
    }
}

impl core::ops::Not for Byte {
    type Output = Byte;

    fn not(self) -> (r: Byte)
        ensures
            r@ == !self@,
    {
        let r = Byte::not(&self);
        proof {
            r.lemma_view_of();
        }
        r
    }
}

impl vstd::std_specs::ops::NotSpecImpl for Byte {
    open spec fn obeys_not_spec() -> bool {
        true
    }

    open spec fn not_req(self) -> bool {
        true
    }

    open spec fn not_spec(self) -> Byte {
        Byte::of(!self@)
    }
}

impl core::ops::BitAndAssign for Byte {
    fn bitand_assign(&mut self, rhs: Self)
        ensures
            final(self)@ == old(self)@ & rhs@,
    {
        *self = self.and(&rhs);
    }
}

impl core::ops::BitOrAssign for Byte {
    fn bitor_assign(&mut self, rhs: Self)
        ensures
            final(self)@ == old(self)@ | rhs@,
    {
        *self = self.or(&rhs);
    }
}

impl core::ops::BitXorAssign for Byte {
    fn bitxor_assign(&mut self, rhs: Self)
        ensures
            final(self)@ == old(self)@ ^ rhs@,
    {
        *self = self.xor(&rhs);
    }
}

/// Converting a number to a byte and the byte back to a number gives the number again.
pub proof fn lemma_number_round_trip(value: u8)
    ensures
        u8::from_spec(Byte::from_spec(value)) == value,
{
    Byte::lemma_of_view(value);
}

/// Converting a byte to a number and the number back to a byte gives the byte again,
/// bit for bit.
pub proof fn lemma_byte_round_trip(byte: Byte)
    ensures
        Byte::from_spec(u8::from_spec(byte)) == byte,
{
    byte.lemma_view_of();
}

} // verus!
