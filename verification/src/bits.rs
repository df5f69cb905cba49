//! Bits of an 8-bit register: what a mask selects, and the two masked
//! updates that every register operation of this crate is made of.

use vstd::prelude::*;
use vstd::arithmetic::power2::{lemma2_to64, pow2};

verus! {

/// The level of bit `index` of `value`, for `index` below 8.
pub open spec fn bit(value: u8, index: u8) -> bool {
    value & (1u8 << index) != 0
}

/// The mask that selects bit `index` alone, for `index` below 8.
pub open spec fn mask_of(index: u8) -> u8 {
    1u8 << index
}

/// Whether `after` differs from `before` at most in the bits that `mask`
/// selects.
pub open spec fn same_outside(before: u8, after: u8, mask: u8) -> bool {
    forall|i: u8| i < 8 && !bit(mask, i) ==> #[trigger] bit(after, i) == bit(before, i)
}

/// Bit `i` of the single-bit mask of `index` is set exactly when `i` is
/// `index`.
pub proof fn lemma_mask_of_bits(index: u8)
    requires
        index < 8,
    ensures
        forall|i: u8| i < 8 ==> #[trigger] bit(mask_of(index), i) == (i == index),
{
    assert forall|i: u8| i < 8 implies #[trigger] bit(mask_of(index), i) == (i == index) by {
        assert(((1u8 << index) & (1u8 << i) != 0) == (i == index)) by (bit_vector)
            requires
                index < 8,
                i < 8,
        ;
    }
}

/// The single-bit mask of `index` is the number two to the power `index`.
pub proof fn lemma_mask_of_value(index: u8)
    requires
        index < 8,
    ensures
        mask_of(index) as nat == pow2(index as nat),
{
    lemma2_to64();
    assert({
        &&& (index == 0 ==> 1u8 << index == 0x01)
        &&& (index == 1 ==> 1u8 << index == 0x02)
        &&& (index == 2 ==> 1u8 << index == 0x04)
        &&& (index == 3 ==> 1u8 << index == 0x08)
        &&& (index == 4 ==> 1u8 << index == 0x10)
        &&& (index == 5 ==> 1u8 << index == 0x20)
        &&& (index == 6 ==> 1u8 << index == 0x40)
        &&& (index == 7 ==> 1u8 << index == 0x80)
    }) by (bit_vector);
}

/// Two positions with the same single-bit mask are the same position.
pub proof fn lemma_mask_of_injective(first: u8, second: u8)
    requires
        first < 8,
        second < 8,
        mask_of(first) == mask_of(second),
    ensures
        first == second,
{
    lemma_mask_of_bits(first);
    lemma_mask_of_bits(second);
    assert(bit(mask_of(first), first));
}

/// A bit of `current | mask` is set exactly when it is set in either.
pub proof fn lemma_apply_mask_bits(current: u8, mask: u8)
    ensures
        forall|i: u8|
            i < 8 ==> #[trigger] bit(current | mask, i) == (bit(current, i) || bit(mask, i)),
{
    assert forall|i: u8| i < 8 implies #[trigger] bit(current | mask, i) == (bit(current, i)
        || bit(mask, i)) by {
        let probe = 1u8 << i;
        assert(((current | mask) & probe != 0) == (current & probe != 0 || mask & probe != 0))
            by (bit_vector);
    }
}

/// A bit of `current & !mask` is set exactly when it is set in `current` and
/// not in `mask`.
pub proof fn lemma_clear_mask_bits(current: u8, mask: u8)
    ensures
        forall|i: u8|
            i < 8 ==> #[trigger] bit(current & !mask, i) == (bit(current, i) && !bit(mask, i)),
{
    assert forall|i: u8| i < 8 implies #[trigger] bit(current & !mask, i) == (bit(current, i)
        && !bit(mask, i)) by {
        let probe = 1u8 << i;
        assert(((current & !mask) & probe != 0) == (current & probe != 0 && mask & probe == 0))
            by (bit_vector)
            requires
                i < 8,
                probe == 1u8 << i,
        ;
    }
}

/// The mask of two lines selects those two bits and no other.
pub proof fn lemma_pair_mask_bits(first: u8, second: u8)
    requires
        first < 8,
        second < 8,
    ensures
        forall|i: u8|
            i < 8 ==> #[trigger] bit(mask_of(first) | mask_of(second), i) == (i == first || i
                == second),
{
    lemma_mask_of_bits(first);
    lemma_mask_of_bits(second);
    lemma_apply_mask_bits(mask_of(first), mask_of(second));
}

/// Setting the bits of two masks one after the other sets the bits of both
/// at once.
pub proof fn lemma_apply_mask_twice(current: u8, first: u8, second: u8)
    ensures
        (current | first) | second == current | (first | second),
{
    assert((current | first) | second == current | (first | second)) by (bit_vector);
}

/// Sets in `current` every bit that `mask` selects and leaves the others as
/// they are.
pub fn apply_mask(current: u8, mask: u8) -> (updated: u8)
    ensures
        updated == current | mask,
        forall|i: u8| i < 8 ==> #[trigger] bit(updated, i) == (bit(current, i) || bit(mask, i)),
{
    proof {
        lemma_apply_mask_bits(current, mask);
    }
    current | mask
}

/// Clears in `current` every bit that `mask` selects and leaves the others as
/// they are.
pub fn clear_mask(current: u8, mask: u8) -> (updated: u8)
    ensures
        updated == current & !mask,
        forall|i: u8| i < 8 ==> #[trigger] bit(updated, i) == (bit(current, i) && !bit(mask, i)),
{
    proof {
        lemma_clear_mask_bits(current, mask);
    }
    current & !mask
}

} // verus!
