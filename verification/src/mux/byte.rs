//! Multiplexers and demultiplexers on bytes, and the storage built from them.

use crate::bit::{lemma_bits_value_2, lemma_bits_value_4, lemma_bits_value_8,
    lemma_bits_value_injective, lemma_weights, select_index, weight, Bit};
use crate::byte::Byte;
use crate::mux::bit::mux as bit_mux;
use crate::mux::{group16, group4, selects};
use vstd::prelude::*;

verus! {

/// Lets the byte through where `enable` is high, and gives the zero byte where it is low.
fn gate(input: Byte, enable: Bit) -> (r: Byte)
    ensures
        r@ == if enable@ { input@ } else { 0 },
{
    let mut bits = [Bit::Low; 8];
    let mut i: usize = 0;
    while i < 8
        invariant
            i <= 8,
            forall|j: int| 0 <= j < i ==> bits[j] == if enable@ { input.bits[j] } else { Bit::Low },
        decreases 8 - i,
    {
        bits[i] = input.bits[i].and(enable);
        i += 1;
    }
    let r = Byte { bits };
    proof {
        if enable@ {
            assert(r.bits =~= input.bits);
        } else {
            lemma_bits_value_8(r.bits@);
        }
    }
    r
}

/// Returns the left byte if `select` is low, the right byte otherwise.
pub fn mux(left: Byte, right: Byte, select: Bit) -> (r: Byte)
    ensures
        r == if select@ { right } else { left },
{
    let mut bits = [Bit::Low; 8];
    let mut i: usize = 0;
    while i < 8
        invariant
            i <= 8,
            forall|j: int| 0 <= j < i ==> bits[j] == if select@ { right.bits[j] } else { left.bits[j] },
        decreases 8 - i,
    {
        bits[i] = bit_mux(left.bits[i], right.bits[i], select);
        i += 1;
    }
    let r = Byte { bits };
    proof {
        if select@ {
            assert(r.bits =~= right.bits);
        } else {
            assert(r.bits =~= left.bits);
        }
    }
    r
}

/// Returns the input that `select` resolves to: `select[0]` weighs 1, `select[1]` weighs 2.
pub fn mux4(input: [Byte; 4], select: [Bit; 2]) -> (r: Byte)
    ensures
        0 <= select_index(select@) < 4,
        r == input[select_index(select@)],
{
    proof {
        lemma_bits_value_2(select@);
    }
    mux(mux(input[0], input[1], select[0]), mux(input[2], input[3], select[0]), select[1])
}

/// Returns the input that `select` resolves to; select bit `i` weighs two to the power `i`.
pub fn mux16(input: [Byte; 16], select: [Bit; 4]) -> (r: Byte)
    ensures
        0 <= select_index(select@) < 16,
        r == input[select_index(select@)],
{
    let low = [select[0], select[1]];
    let high = [select[2], select[3]];
    proof {
        lemma_bits_value_2(low@);
        lemma_bits_value_2(high@);
        lemma_bits_value_4(select@);
    }
    let mut inner = [input[0]; 4];
    let mut i: usize = 0;
    while i < 4
        invariant
            i <= 4,
            0 <= select_index(low@) < 4,
            forall|j: int| 0 <= j < i ==> inner[j] == input[4 * j + select_index(low@)],
        decreases 4 - i,
    {
        inner[i] = mux4(group4(&input, i), low);
        i += 1;
    }
    mux4(inner, high)
}

/// Returns the input that `select` resolves to; select bit `i` weighs two to the power `i`.
pub fn mux256(input: [Byte; 256], select: [Bit; 8]) -> (r: Byte)
    ensures
        0 <= select_index(select@) < 256,
        r == input[select_index(select@)],
{
    let low = [select[0], select[1], select[2], select[3]];
    let high = [select[4], select[5], select[6], select[7]];
    proof {
        lemma_bits_value_4(low@);
        lemma_bits_value_4(high@);
        lemma_bits_value_8(select@);
    }
    let mut inner = [input[0]; 16];
    let mut i: usize = 0;
    while i < 16
        invariant
            i <= 16,
            0 <= select_index(low@) < 16,
            forall|j: int| 0 <= j < i ==> inner[j] == input[16 * j + select_index(low@)],
        decreases 16 - i,
    {
        inner[i] = mux16(group16(&input, i), low);
        i += 1;
    }
    mux16(inner, high)
}

/// Hands the input to the left output if `select` is low, to the right output otherwise;
/// the other output is the zero byte.
pub fn dmux(input: Byte, select: Bit) -> (r: (Byte, Byte))
    ensures
        r.0@ == if select@ { 0 } else { input@ },
        r.1@ == if select@ { input@ } else { 0 },
{
    (gate(input, select.not()), gate(input, select))
}

/// Hands the input to the output that `select` resolves to; every other output is the
/// zero byte.
pub fn dmux4(input: Byte, select: [Bit; 2]) -> (r: [Byte; 4])
    ensures
        0 <= select_index(select@) < 4,
        forall|k: int| 0 <= k < 4 ==> r[k]@ == if k == select_index(select@) { input@ } else { 0 },
{
    proof {
        lemma_weights();
        lemma_bits_value_2(select@);
    }
    let mut out = [input; 4];
    let mut i: usize = 0;
    while i < 4
        invariant
            i <= 4,
            weight(2) == 4,
            forall|k: int|
                0 <= k < i ==> out[k]@ == if k == select_index(select@) { input@ } else { 0 },
        decreases 4 - i,
    {
        out[i] = gate(input, Bit::from(selects(&select, i as u8)));
        i += 1;
    }
    out
}

/// Hands the input to the output that `select` resolves to; every other output is the
/// zero byte.
pub fn dmux16(input: Byte, select: [Bit; 4]) -> (r: [Byte; 16])
    ensures
        0 <= select_index(select@) < 16,
        forall|k: int| 0 <= k < 16 ==> r[k]@ == if k == select_index(select@) { input@ } else { 0 },
{
    proof {
        lemma_weights();
        lemma_bits_value_4(select@);
    }
    let mut out = [input; 16];
    let mut i: usize = 0;
    while i < 16
        invariant
            i <= 16,
            weight(4) == 16,
            forall|k: int|
                0 <= k < i ==> out[k]@ == if k == select_index(select@) { input@ } else { 0 },
        decreases 16 - i,
    {
        out[i] = gate(input, Bit::from(selects(&select, i as u8)));
        i += 1;
    }
    out
}

/// Hands the input to the output that `select` resolves to; every other output is the
/// zero byte.
pub fn dmux256(input: Byte, select: [Bit; 8]) -> (r: [Byte; 256])
    ensures
        0 <= select_index(select@) < 256,
        forall|k: int| 0 <= k < 256 ==> r[k]@ == if k == select_index(select@) { input@ } else { 0 },
{
    proof {
        lemma_weights();
        lemma_bits_value_8(select@);
    }
    let mut out = [input; 256];
    let mut i: usize = 0;
    while i < 256
        invariant
            i <= 256,
            weight(8) == 256,
            forall|k: int|
                0 <= k < i ==> out[k]@ == if k == select_index(select@) { input@ } else { 0 },
        decreases 256 - i,
    {
        out[i] = gate(input, Bit::from(selects(&select, i as u8)));
        i += 1;
    }
    out
}

/// A memory of 256 bytes, addressed by a byte.
pub struct Ram {
    data: [Byte; 256],
}

impl View for Ram {
    type V = Seq<u8>;

    /// The memory stands for the 256 numbers that its cells hold, by address.
    closed spec fn view(&self) -> Seq<u8> {
        Seq::new(256, |i: int| self.data[i]@)
    }
}

impl Default for Ram {
    fn default() -> (r: Self)
        ensures
            r@ == Seq::new(256, |i: int| 0u8),
    {
        Self::new()
    }
}

impl Ram {
    /// What a load from `address` gives.
    pub open spec fn loaded(&self, address: Byte) -> u8 {
        self@[address@ as int]
    }

    /// What the memory holds after `value` was stored at `address`.
    pub open spec fn stored(&self, address: Byte, value: Byte) -> Seq<u8> {
        self@.update(address@ as int, value@)
    }

    /// The memory always has 256 cells.
    pub proof fn lemma_len(&self)
        ensures
            self@.len() == 256,
    {
    }

    /// A load after a store at the same address gives the stored value, and a load at
    /// any other address gives what it gave before the store.
    pub proof fn lemma_store_then_load(
        before: Ram,
        after: Ram,
        address: Byte,
        value: Byte,
        probe: Byte,
    )
        requires
            after@ == before.stored(address, value),
        ensures
            after.loaded(address) == value@,
            probe != address ==> after.loaded(probe) == before.loaded(probe),
    {
        if probe@ == address@ {
            probe.lemma_view_injective(address);
        }
    }

    /// A memory of zero bytes.
    pub fn new() -> (r: Self)
        ensures
            r@ == Seq::new(256, |i: int| 0u8),
    {
        let r = Ram { data: [Byte::from(0); 256] };
        assert(r@ =~= Seq::new(256, |i: int| 0u8));
        r
    }

    /// Loads the byte at `address`, selecting it among all cells.
    pub fn load(&self, address: Byte) -> (r: Byte)
        ensures
            r@ == self.loaded(address),
    {
        proof {
            address.lemma_view_is_value();
        }
        mux256(self.data, address.into())
    }

    /// Stores `value` at `address`: every cell is rewritten, and only the addressed one
    /// changes.
    pub fn store(&mut self, address: Byte, value: Byte)
        ensures
            final(self)@ == old(self).stored(address, value),
    {
        proof {
            address.lemma_view_is_value();
        }
        let new_value = dmux256(value, address.into());
        let enable = crate::mux::bit::dmux256(Bit::High, address.into());
        let mut i: usize = 0;
        while i < 256
            invariant
                i <= 256,
                0 <= address@ < 256,
                forall|k: int| 0 <= k < 256 ==> new_value[k]@ == if k == address@ { value@ } else { 0 },
                forall|k: int| 0 <= k < 256 ==> enable[k]@ == (k == address@),
                forall|k: int|
                    0 <= k < i ==> self.data[k]@ == if k == address@ {
                        value@
                    } else {
                        old(self).data[k]@
                    },
                forall|k: int| i <= k < 256 ==> self.data[k] == old(self).data[k],
            decreases 256 - i,
        {
            self.data[i] = mux(self.data[i], new_value[i], enable[i]);
            i += 1;
        }
        assert(self@ =~= old(self).stored(address, value));
    }
}

/// The register file: four bytes, addressed by two bits.
pub struct Registers {
    data: [Byte; 4],
}

impl View for Registers {
    type V = Seq<u8>;

    /// The register file stands for the four numbers that its registers hold.
    closed spec fn view(&self) -> Seq<u8> {
        Seq::new(4, |i: int| self.data[i]@)
    }
}

impl Default for Registers {
    fn default() -> (r: Self)
        ensures
            r@ == Seq::new(4, |i: int| 0u8),
    {
        Self::new()
    }
}

impl Registers {
    /// What a load of the register at `select` gives.
    pub open spec fn loaded(&self, select: [Bit; 2]) -> u8 {
        self@[select_index(select@)]
    }

    /// What the registers hold after `value` was stored in the one at `select`.
    pub open spec fn stored(&self, select: [Bit; 2], value: Byte) -> Seq<u8> {
        self@.update(select_index(select@), value@)
    }

    /// There are always four registers.
    pub proof fn lemma_len(&self)
        ensures
            self@.len() == 4,
    {
    }

    /// A load after a store in the same register gives the stored value, and a load of
    /// any other register gives what it gave before the store.
    pub proof fn lemma_store_then_load(
        before: Registers,
        after: Registers,
        select: [Bit; 2],
        value: Byte,
        probe: [Bit; 2],
    )
        requires
            after@ == before.stored(select, value),
        ensures
            after.loaded(select) == value@,
            probe != select ==> after.loaded(probe) == before.loaded(probe),
    {
        lemma_bits_value_2(select@);
        lemma_bits_value_2(probe@);
        if select_index(probe@) == select_index(select@) {
            lemma_bits_value_injective(probe@, select@, 2);
            assert(probe =~= select);
        }
    }

    /// Four registers that hold zero.
    pub fn new() -> (r: Self)
        ensures
            r@ == Seq::new(4, |i: int| 0u8),
    {
        let r = Registers { data: [Byte::from(0); 4] };
        assert(r@ =~= Seq::new(4, |i: int| 0u8));
        r
    }

    /// Loads the register at `select`, selecting it among all four.
    pub fn load(&self, select: [Bit; 2]) -> (r: Byte)
        ensures
            0 <= select_index(select@) < 4,
            r@ == self.loaded(select),
    {
        mux4(self.data, select)
    }

    /// Stores `value` in the register at `select`: every register is rewritten, and only
    /// the addressed one changes.
    pub fn store(&mut self, select: [Bit; 2], value: Byte)
        ensures
            0 <= select_index(select@) < 4,
            final(self)@ == old(self).stored(select, value),
    {
        let new_value = dmux4(value, select);
        let enable = crate::mux::bit::dmux4(Bit::High, select);
        let mut i: usize = 0;
        while i < 4
            invariant
                i <= 4,
                0 <= select_index(select@) < 4,
                forall|k: int|
                    0 <= k < 4 ==> new_value[k]@ == if k == select_index(select@) { value@ } else { 0 },
                forall|k: int| 0 <= k < 4 ==> enable[k]@ == (k == select_index(select@)),
                forall|k: int|
                    0 <= k < i ==> self.data[k]@ == if k == select_index(select@) {
                        value@
                    } else {
                        old(self).data[k]@
                    },
                forall|k: int| i <= k < 4 ==> self.data[k] == old(self).data[k],
            decreases 4 - i,
        {
            self.data[i] = mux(self.data[i], new_value[i], enable[i]);
            i += 1;
        }
        assert(self@ =~= old(self).stored(select, value));
    }
}

} // verus!
