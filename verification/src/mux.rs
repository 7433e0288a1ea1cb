//! The selection fabric: multiplexers and demultiplexers over bits and bytes.

use crate::bit::{index_bits, lemma_select_index_bits, lemma_select_index_injective, select_index,
    weight, Bit};
use vstd::prelude::*;

pub mod bit;
pub mod byte;

verus! {

/// What a multiplexer reads back from the outputs of a demultiplexer of the same width,
/// whatever the width: the input where the two select words are the same, and the idle
/// value everywhere else. `outputs` is what the demultiplexer gives for `input` and
/// `select`, with `idle` at every output that `select` does not resolve to.
pub proof fn lemma_select_after_broadcast<T>(
    outputs: Seq<T>,
    input: T,
    idle: T,
    select: Seq<Bit>,
    probe: Seq<Bit>,
)
    requires
        select.len() == probe.len(),
        0 <= select_index(select) < outputs.len(),
        0 <= select_index(probe) < outputs.len(),
        forall|k: int|
            0 <= k < outputs.len() ==> outputs[k] == if k == select_index(select) {
                input
            } else {
                idle
            },
    ensures
        outputs[select_index(probe)] == if probe == select { input } else { idle },
{
    if select_index(probe) == select_index(select) {
        lemma_select_index_injective(probe, select);
    }
}

/// Whether `select` resolves to `index`, found by comparing the select bits with the bits
/// of `index` one by one.
pub(crate) fn selects(select: &[Bit], index: u8) -> (r: bool)
    requires
        select@.len() == 2 || select@.len() == 4 || select@.len() == 8,
        index < weight(select@.len()),
    ensures
        r == (select_index(select@) == index),
{
    let mut all: bool = true;
    let mut k: usize = 0;
    while k < select.len()
        invariant
            k <= select@.len() <= 8,
            all == (forall|m: int| 0 <= m < k ==> select@[m] == index_bits(index, select@.len())[m]),
        decreases select@.len() - k,
    {
        let bit = Bit::from((index >> k) & 1 == 1);
        assert(bit == index_bits(index, select@.len())[k as int]) by {
            let kk = k as u8;
            assert((index >> k) == (index >> kk)) by (bit_vector)
                requires
                    kk == k,
                    k < 8,
            ;
        }
        all = all && bit == select[k];
        k += 1;
    }
    proof {
        lemma_select_index_bits(select@, index);
    }
    all
}

/// Four neighbouring inputs of sixteen: those at `4 * group` and the three after it.
pub(crate) fn group4<T: Copy>(input: &[T; 16], group: usize) -> (r: [T; 4])
    requires
        group < 4,
    ensures
        forall|j: int| 0 <= j < 4 ==> r[j] == input[4 * group + j],
{
    [input[4 * group], input[4 * group + 1], input[4 * group + 2], input[4 * group + 3]]
}

/// Sixteen neighbouring inputs of 256: those at `16 * group` and the fifteen after it.
pub(crate) fn group16<T: Copy>(input: &[T; 256], group: usize) -> (r: [T; 16])
    requires
        group < 16,
    ensures
        forall|j: int| 0 <= j < 16 ==> r[j] == input[16 * group + j],
{
    let mut r = [input[16 * group];16];
    let mut j: usize = 1;
    while j < 16
        invariant
            1 <= j <= 16,
            group < 16,
            forall|m: int| 0 <= m < j ==> r[m] == input[16 * group + m],
        decreases 16 - j,
    {
        r[j] = input[16 * group + j];
        j += 1;
    }
    r
}

} // verus!
