//! Padding arithmetic shared by the alignment engine and the verifier.
//!
//! Both components need the same computation: given the byte offset at which
//! an entry's data would start, how many zero bytes must be inserted so that
//! the data starts at a multiple of the alignment.

use vstd::prelude::*;

verus! {

use vstd::arithmetic::div_mod::{
    lemma_add_mod_noop, lemma_mod_division_less_than_divisor, lemma_mod_self_0, lemma_small_mod,
};

/// The smallest non-negative number of bytes that must be added to `offset`
/// so that the sum is a multiple of `alignment`.
pub open spec fn spec_padding(offset: int, alignment: int) -> int {
    (alignment - offset % alignment) % alignment
}

/// The padding is always smaller than a full alignment unit, and adding it
/// to the offset lands exactly on an alignment boundary.
pub proof fn lemma_padding(offset: int, alignment: int)
    requires
        alignment >= 1,
        offset >= 0,
    ensures
        0 <= spec_padding(offset, alignment) < alignment,
        (offset + spec_padding(offset, alignment)) % alignment == 0,
        offset % alignment == 0 ==> spec_padding(offset, alignment) == 0,
{
    let r = offset % alignment;
    lemma_mod_division_less_than_divisor(offset, alignment);
    lemma_mod_self_0(alignment);
    if r == 0 {
        assert(spec_padding(offset, alignment) == 0);
    } else {
        lemma_small_mod((alignment - r) as nat, alignment as nat);
        assert(spec_padding(offset, alignment) == alignment - r);
        lemma_add_mod_noop(offset, alignment - r, alignment);
        assert((r + (alignment - r)) % alignment == 0);
    }
}

/// With alignment 1 every offset is already aligned, so no padding is ever
/// inserted.
pub proof fn lemma_padding_alignment_one(offset: int)
    requires
        offset >= 0,
    ensures
        spec_padding(offset, 1) == 0,
{
    lemma_padding(offset, 1);
}

/// Computes `spec_padding` on machine integers.
pub fn padding_for(offset: u64, alignment: u64) -> (p: u64)
    requires
        alignment >= 1,
    ensures
        p == spec_padding(offset as int, alignment as int),
        p < alignment,
        (offset + p) % (alignment as int) == 0,
{
    let r = offset % alignment;
    proof {
        lemma_padding(offset as int, alignment as int);
        lemma_mod_division_less_than_divisor(offset as int, alignment as int);
    }
    (alignment - r) % alignment
}

} // verus!
