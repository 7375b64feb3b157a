//! How a gate divides the indices of a register.
//!
//! A single-qubit gate on bit `target` pairs every index with the index
//! that differs from it in that bit. A two-qubit gate on the bits `control`
//! and `target` groups every index with the three indices that differ from
//! it in those bits. The smallest index of a group, the one with the bits at
//! zero, is its canonical index, or owner. The groups are disjoint and cover
//! the register, so the units of work of two canonical indices never touch
//! the same amplitude.

use crate::bits::bit_set;
use crate::bits::flipped;
use crate::bits::lemma_flip_bits;
use crate::bits::lemma_flip_commutes;
use crate::bits::lemma_flip_in_range;
use crate::bits::lemma_flip_involution;
use crate::bits::lemma_flip_order;
use vstd::arithmetic::power2::pow2;
use vstd::prelude::*;

verus! {

/// The canonical index of the pair of `x`.
pub open spec fn pair_owner(x: usize, target: usize) -> usize {
    if bit_set(x, target) {
        flipped(x, target)
    } else {
        x
    }
}

/// The canonical index of the quadruple of `x`.
pub open spec fn quad_owner(x: usize, control: usize, target: usize) -> usize {
    pair_owner(pair_owner(x, target), control)
}

/// The place of `x` in its quadruple, in the order of the matrix columns.
pub open spec fn quad_place(x: usize, control: usize, target: usize) -> int {
    (if bit_set(x, control) {
        2int
    } else {
        0int
    }) + (if bit_set(x, target) {
        1int
    } else {
        0int
    })
}

/// Whether `x` is one of the two indices of the pair of `c`.
pub open spec fn in_pair(x: usize, c: usize, target: usize) -> bool {
    x == c || x == flipped(c, target)
}

/// Whether `x` is one of the four indices of the quadruple of `c`.
pub open spec fn in_quad(x: usize, c: usize, control: usize, target: usize) -> bool {
    ||| x == c
    ||| x == flipped(c, target)
    ||| x == flipped(c, control)
    ||| x == flipped(flipped(c, target), control)
}

/// Every index of a register lies in the pair of exactly one canonical
/// index: its owner, which is canonical and inside the register, and no
/// other canonical index has it in its pair.
pub proof fn lemma_pairs_partition(x: usize, target: usize, n: usize)
    requires
        n < usize::BITS,
        target < n,
        x < pow2(n as nat),
    ensures
        !bit_set(pair_owner(x, target), target),
        pair_owner(x, target) < pow2(n as nat),
        pair_owner(x, target) <= x,
        x == pair_owner(x, target) || x == flipped(pair_owner(x, target), target),
        forall|c: usize|
            !bit_set(c, target) && (x == c || x == flipped(c, target)) ==> c == pair_owner(
                x,
                target,
            ),
{
    lemma_flip_involution(x, target);
    lemma_flip_order(x, target);
    lemma_flip_order(flipped(x, target), target);
    assert forall|c: usize|
        !bit_set(c, target) && (x == c || x == flipped(c, target)) implies c == pair_owner(
        x,
        target,
    ) by {
        lemma_flip_involution(c, target);
    }
}

/// The members of the pair of a canonical index `i`: both lie inside the
/// register, `i` is the smaller, and both have `i` as their owner.
pub proof fn lemma_pair_members(i: usize, target: usize, n: usize)
    requires
        n < usize::BITS,
        target < n,
        i < pow2(n as nat),
        !bit_set(i, target),
    ensures
        flipped(i, target) < pow2(n as nat),
        i < flipped(i, target),
        bit_set(flipped(i, target), target),
        pair_owner(i, target) == i,
        pair_owner(flipped(i, target), target) == i,
{
    lemma_flip_in_range(i, target, n);
    lemma_flip_order(i, target);
    lemma_flip_bits(i, target, target);
    lemma_flip_involution(i, target);
}

/// Every index of a register lies in the quadruple of exactly one canonical
/// index: its owner, which has both bits at zero and is the smallest of the
/// four.
pub proof fn lemma_quads_partition(x: usize, control: usize, target: usize, n: usize)
    requires
        n < usize::BITS,
        target < n,
        control < n,
        control != target,
        x < pow2(n as nat),
    ensures
        !bit_set(quad_owner(x, control, target), target),
        !bit_set(quad_owner(x, control, target), control),
        quad_owner(x, control, target) < pow2(n as nat),
        quad_owner(x, control, target) <= x,
        0 <= quad_place(x, control, target) < 4,
        quad_place(x, control, target) == 0 ==> x == quad_owner(x, control, target),
        quad_place(x, control, target) == 1 ==> x == flipped(
            quad_owner(x, control, target),
            target,
        ),
        quad_place(x, control, target) == 2 ==> x == flipped(
            quad_owner(x, control, target),
            control,
        ),
        quad_place(x, control, target) == 3 ==> x == flipped(
            flipped(quad_owner(x, control, target), target),
            control,
        ),
{
    let y = pair_owner(x, target);
    lemma_pairs_partition(x, target, n);
    lemma_pairs_partition(y, control, n);
    lemma_flip_bits(x, target, control);
    lemma_flip_bits(y, control, target);
    lemma_flip_commutes(quad_owner(x, control, target), target, control);
}

/// The members of the quadruple of a canonical index `i`: each lies inside
/// the register, none is below `i`, and each has `i` as its owner and its
/// own place.
pub proof fn lemma_quad_members(i: usize, control: usize, target: usize, n: usize)
    requires
        n < usize::BITS,
        target < n,
        control < n,
        control != target,
        i < pow2(n as nat),
        !bit_set(i, target),
        !bit_set(i, control),
    ensures
        ({
            let j = flipped(i, target);
            let k = flipped(i, control);
            let l = flipped(j, control);
            &&& j < pow2(n as nat) && k < pow2(n as nat) && l < pow2(n as nat)
            &&& i < j && i < k && i < l
            &&& quad_owner(i, control, target) == i && quad_place(i, control, target) == 0
            &&& quad_owner(j, control, target) == i && quad_place(j, control, target) == 1
            &&& quad_owner(k, control, target) == i && quad_place(k, control, target) == 2
            &&& quad_owner(l, control, target) == i && quad_place(l, control, target) == 3
        }),
{
    let j = flipped(i, target);
    let k = flipped(i, control);
    let l = flipped(j, control);
    lemma_flip_in_range(i, target, n);
    lemma_flip_in_range(j, control, n);
    lemma_flip_order(i, target);
    lemma_flip_order(i, control);
    lemma_flip_bits(i, target, target);
    lemma_flip_bits(i, target, control);
    lemma_flip_bits(i, control, control);
    lemma_flip_bits(i, control, target);
    lemma_flip_bits(j, control, control);
    lemma_flip_bits(j, control, target);
    lemma_flip_involution(i, target);
    lemma_flip_involution(i, control);
    lemma_flip_commutes(i, target, control);
    lemma_flip_involution(k, target);
    lemma_flip_order(j, control);
    lemma_flip_in_range(l, target, n);
}

/// No two pairs share an index.
pub proof fn lemma_pairs_disjoint(a: usize, b: usize, target: usize, n: usize, x: usize)
    requires
        n < usize::BITS,
        target < n,
        a < pow2(n as nat),
        b < pow2(n as nat),
        !bit_set(a, target),
        !bit_set(b, target),
        a != b,
    ensures
        !(in_pair(x, a, target) && in_pair(x, b, target)),
{
    lemma_flip_bits(b, target, target);
    lemma_flip_involution(a, target);
    lemma_flip_involution(b, target);
}

/// No two quadruples share an index.
pub proof fn lemma_quads_disjoint(
    a: usize,
    b: usize,
    control: usize,
    target: usize,
    n: usize,
    x: usize,
)
    requires
        n < usize::BITS,
        target < n,
        control < n,
        control != target,
        a < pow2(n as nat),
        b < pow2(n as nat),
        !bit_set(a, target) && !bit_set(a, control),
        !bit_set(b, target) && !bit_set(b, control),
        a != b,
    ensures
        !(in_quad(x, a, control, target) && in_quad(x, b, control, target)),
{
    lemma_quad_members(a, control, target, n);
    lemma_quad_members(b, control, target, n);
}

/// An index that is not above its two flips is the smallest of its
/// quadruple: the comparisons with the two flips settle the one with the
/// fourth index.
pub proof fn lemma_canonical_is_minimum(i: usize, control: usize, target: usize, n: usize)
    requires
        n < usize::BITS,
        target < n,
        control < n,
        control != target,
        i < pow2(n as nat),
        i <= flipped(i, target),
        i <= flipped(i, control),
    ensures
        !bit_set(i, target),
        !bit_set(i, control),
        i < flipped(i, target),
        i < flipped(i, control),
        i < flipped(flipped(i, target), control),
{
    lemma_flip_order(i, target);
    lemma_flip_order(i, control);
    lemma_flip_involution(i, target);
    lemma_flip_involution(i, control);
    lemma_quad_members(i, control, target, n);
}

} // verus!
