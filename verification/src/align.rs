//! Rounding of byte positions to sector boundaries.

use vstd::prelude::*;

verus! {

/// The largest multiple of `alignment` that is not above `value`.
pub open spec fn spec_round_down(value: int, alignment: int) -> int {
    (value / alignment) * alignment
}

/// The smallest multiple of `alignment` that is not below `value`.
pub open spec fn spec_round_up(value: int, alignment: int) -> int {
    ((value + alignment - 1) / alignment) * alignment
}

/// Whether `value` lies on a multiple of `alignment`.
pub open spec fn is_aligned(value: int, alignment: int) -> bool {
    value % alignment == 0
}

/// Both roundings, written with the remainder of the division.
pub proof fn lemma_rounding_by_remainder(value: int, alignment: int)
    requires
        alignment > 0,
    ensures
        spec_round_down(value, alignment) == value - value % alignment,
        spec_round_up(value, alignment) == if value % alignment == 0 {
            value
        } else {
            value - value % alignment + alignment
        },
{
    let q = value / alignment;
    let r = value % alignment;
    assert(value == alignment * q + r) by {
        vstd::arithmetic::div_mod::lemma_fundamental_div_mod(value, alignment);
    }
    assert(0 <= r < alignment) by {
        vstd::arithmetic::div_mod::lemma_mod_bound(value, alignment);
    }
    assert(alignment * q == q * alignment) by (nonlinear_arith);
    if r == 0 {
        assert((q * alignment + (alignment - 1)) / alignment == q) by (nonlinear_arith)
            requires
                alignment > 0,
        ;
    } else {
        assert(((q + 1) * alignment + (r - 1)) / alignment == q + 1) by (nonlinear_arith)
            requires
                alignment > 0,
                0 < r < alignment,
        ;
        assert((q + 1) * alignment == q * alignment + alignment) by (nonlinear_arith);
    }
}

/// A rounded value is a multiple of the alignment, and rounding moves a value
/// by less than one alignment: down to at most the value, up to at least it.
pub proof fn lemma_rounding_bounds(value: int, alignment: int)
    requires
        alignment > 0,
    ensures
        is_aligned(spec_round_down(value, alignment), alignment),
        is_aligned(spec_round_up(value, alignment), alignment),
        value - alignment < spec_round_down(value, alignment) <= value,
        value <= spec_round_up(value, alignment) < value + alignment,
        value >= 0 ==> spec_round_down(value, alignment) >= 0,
{
    lemma_rounding_by_remainder(value, alignment);
    vstd::arithmetic::div_mod::lemma_mod_bound(value, alignment);
    vstd::arithmetic::div_mod::lemma_mod_multiples_basic(value / alignment, alignment);
    vstd::arithmetic::div_mod::lemma_mod_multiples_basic(
        (value + alignment - 1) / alignment,
        alignment,
    );
    if value >= 0 {
        assert((value / alignment) * alignment >= 0) by (nonlinear_arith)
            requires
                value >= 0,
                alignment > 0,
        ;
    }
}

/// A value on a boundary is its own rounding, in both directions; a value off
/// a boundary has its two roundings exactly one alignment apart.
pub proof fn lemma_rounding_of_aligned(value: int, alignment: int)
    requires
        alignment > 0,
    ensures
        is_aligned(value, alignment) ==> spec_round_down(value, alignment) == value
            && spec_round_up(value, alignment) == value,
        !is_aligned(value, alignment) ==> spec_round_up(value, alignment) == spec_round_down(
            value,
            alignment,
        ) + alignment,
{
    lemma_rounding_by_remainder(value, alignment);
}

/// From one boundary to another it is a whole number of alignments.
pub proof fn lemma_aligned_difference(low: int, high: int, alignment: int)
    requires
        alignment > 0,
        is_aligned(low, alignment),
        is_aligned(high, alignment),
    ensures
        is_aligned(high - low, alignment),
{
    vstd::arithmetic::div_mod::lemma_fundamental_div_mod(low, alignment);
    vstd::arithmetic::div_mod::lemma_fundamental_div_mod(high, alignment);
    let count = high / alignment - low / alignment;
    assert(high - low == count * alignment) by (nonlinear_arith)
        requires
            high == alignment * (high / alignment),
            low == alignment * (low / alignment),
            count == high / alignment - low / alignment,
    ;
    vstd::arithmetic::div_mod::lemma_mod_multiples_basic(count, alignment);
}

/// Rounding keeps the order of two values.
pub proof fn lemma_rounding_is_monotonic(low: int, high: int, alignment: int)
    requires
        alignment > 0,
        low <= high,
    ensures
        spec_round_down(low, alignment) <= spec_round_down(high, alignment),
        spec_round_up(low, alignment) <= spec_round_up(high, alignment),
{
    vstd::arithmetic::div_mod::lemma_div_is_ordered(low, high, alignment);
    vstd::arithmetic::div_mod::lemma_div_is_ordered(
        low + alignment - 1,
        high + alignment - 1,
        alignment,
    );
    vstd::arithmetic::mul::lemma_mul_inequality(low / alignment, high / alignment, alignment);
    vstd::arithmetic::mul::lemma_mul_inequality(
        (low + alignment - 1) / alignment,
        (high + alignment - 1) / alignment,
        alignment,
    );
}

} // verus!
