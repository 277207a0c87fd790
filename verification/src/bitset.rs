//! What this crate takes on trust about `fixedbitset::FixedBitSet`.

use fixedbitset::FixedBitSet;
use vstd::prelude::*;

verus! {

#[verifier::external_type_specification]
#[verifier::external_body]
pub struct ExFixedBitSet(FixedBitSet);

/// The flags that a bit set holds, in index order; its length is the length in bits.
pub uninterp spec fn bits(set: FixedBitSet) -> Seq<bool>;

/// `FixedBitSet::with_capacity` gives a set of `capacity` flags, all of them clear.
pub assume_specification[ FixedBitSet::with_capacity ](capacity: usize) -> (set: FixedBitSet)
    ensures
        bits(set) == Seq::new(capacity as nat, |i: int| false),
;

/// `FixedBitSet::contains` reads the flag at `bit`; past the last flag the source
/// may answer either way, so nothing is claimed there.
pub assume_specification[ FixedBitSet::contains ](set: &FixedBitSet, bit: usize) -> (enabled: bool)
    ensures
        bit < bits(*set).len() ==> enabled == bits(*set)[bit as int],
;

/// `FixedBitSet::set` writes the flag at `bit` and leaves every other flag and the
/// length alone. It panics when `bit` is not below the length.
pub assume_specification[ FixedBitSet::set ](set: &mut FixedBitSet, bit: usize, enabled: bool)
    requires
        bit < bits(*old(set)).len(),
    ensures
        bits(*final(set)) == bits(*old(set)).update(bit as int, enabled),
;

/// Whether bit `k` of `block` is set.
pub open spec fn bit_of(block: u32, k: int) -> bool {
    (block >> (k as u32)) & 1u32 == 1u32
}

/// Whether `blocks` holds `flags` packed 32 to a block from the lowest bit up:
/// flag `i` is bit `i % 32` of block `i / 32`.
pub open spec fn packed(blocks: Seq<u32>, flags: Seq<bool>) -> bool {
    &&& blocks.len() == (flags.len() + 31) / 32
    &&& forall|i: int| 0 <= i < flags.len() ==> #[trigger] flags[i] == bit_of(blocks[i / 32], i % 32)
}

/// `FixedBitSet::as_slice` lends the blocks that hold the flags, enough of them
/// for the length and no more. Of the bits past the last flag nothing is claimed.
pub assume_specification[ FixedBitSet::as_slice ](set: &FixedBitSet) -> (blocks: &[u32])
    ensures
        packed(blocks@, bits(*set)),
;

/// `Clone::clone` of a `FixedBitSet` copies the blocks and the length.
pub assume_specification[ <FixedBitSet as Clone>::clone ](set: &FixedBitSet) -> (copy: FixedBitSet)
    ensures
        bits(copy) == bits(*set),
;

} // verus!
