//! The size-class index: a pure map from a requested byte size to the index
//! of the smallest power-of-two class that can hold it.

use vstd::prelude::*;
use vstd::arithmetic::power2::{pow2, lemma_pow2_unfold, lemma_pow2_strictly_increases, lemma2_to64};

verus! {

/// The class index of a request of `size` bytes: the smallest `i` with
/// `pow2(i) >= size`. A request of size 0 is routed to class 0, the same
/// class that serves size 1.
pub open spec fn class_of(size: nat) -> nat
    decreases size,
{
    if size <= 1 {
        0
    } else {
        1 + class_of(((size + 1) / 2) as nat)
    }
}

/// `class_of(size)` is large enough: a class-`class_of(size)` item holds
/// `size` bytes.
pub proof fn lemma_class_of_fits(size: nat)
    requires
        size >= 1,
    ensures
        pow2(class_of(size)) >= size,
    decreases size,
{
    if size <= 1 {
        assert(pow2(0) == 1) by {
            lemma2_to64();
        }
    } else {
        let half = ((size + 1) / 2) as nat;
        lemma_class_of_fits(half);
        lemma_pow2_unfold((1 + class_of(half)) as nat);
        assert(pow2(1 + class_of(half)) == 2 * pow2(class_of(half)));
        assert(2 * half >= size);
    }
}

/// `class_of(size)` is the smallest fitting class: every class `j` whose
/// items hold `size` bytes satisfies `j >= class_of(size)`.
pub proof fn lemma_class_of_minimal(size: nat, j: nat)
    requires
        size >= 1,
        pow2(j) >= size,
    ensures
        j >= class_of(size),
    decreases size,
{
    if size <= 1 {
    } else {
        let half = ((size + 1) / 2) as nat;
        if j == 0 {
            assert(pow2(0) == 1) by {
                lemma2_to64();
            }
            assert(false);
        } else {
            lemma_pow2_unfold(j);
            assert(pow2(j) == 2 * pow2((j - 1) as nat));
            assert(2 * pow2((j - 1) as nat) >= size);
            assert(pow2((j - 1) as nat) >= half);
            lemma_class_of_minimal(half, (j - 1) as nat);
        }
    }
}

/// The defining property of the size-class index, in one statement: for
/// every size of at least one byte, `class_of(size)` is the smallest `i`
/// with `pow2(i) >= size`.
pub proof fn lemma_class_of_is_smallest(size: nat)
    requires
        size >= 1,
    ensures
        pow2(class_of(size)) >= size,
        forall|j: nat| pow2(j) >= size ==> j >= class_of(size),
{
    lemma_class_of_fits(size);
    assert forall|j: nat| pow2(j) >= size implies j >= class_of(size) by {
        lemma_class_of_minimal(size, j);
    }
}

/// Rounding a size up to its class's item size does not change the class:
/// an item of `pow2(class_of(size))` bytes maps back to `class_of(size)`.
pub proof fn lemma_class_of_pow2(e: nat)
    ensures
        class_of(pow2(e)) == e,
{
    vstd::arithmetic::power2::lemma_pow2_pos(e);
    lemma_class_of_fits(pow2(e));
    lemma_class_of_minimal(pow2(e), e);
    if class_of(pow2(e)) < e {
        lemma_pow2_strictly_increases(class_of(pow2(e)), e);
        assert(false);
    }
}

/// Computes the size class of a request of `size` bytes: the index of the
/// smallest power of two that is at least `size`. Total for every `usize`,
/// with size 0 routed to class 0.
pub fn compute(size: usize) -> (r: usize)
    ensures
        r == class_of(size as nat),
{
    if size <= 1 {
        return 0;
    }
    let mut i: usize = 0;
    let mut p: usize = 1;
    proof {
        lemma2_to64();
    }
    loop
        invariant
            1 <= p <= usize::MAX,
            p == pow2(i as nat),
            i < p,
            i > 0 ==> pow2((i - 1) as nat) < size,
            p < size,
            size <= usize::MAX,
        decreases size - p,
    {
        if p > usize::MAX / 2 {
            // The next power of two no longer fits in usize, so it is in
            // particular larger than `size`: the class is `i + 1`.
            proof {
                lemma_pow2_unfold((i + 1) as nat);
                lemma_class_of_fits(size as nat);
                lemma_class_of_minimal(size as nat, (i + 1) as nat);
                if class_of(size as nat) <= i as nat {
                    lemma_pow2_monotone(class_of(size as nat), i as nat);
                    assert(false);
                }
            }
            return i + 1;
        }
        p = p * 2;
        i = i + 1;
        proof {
            lemma_pow2_unfold(i as nat);
        }
        if p >= size {
            proof {
                lemma_class_of_minimal(size as nat, i as nat);
                if class_of(size as nat) < i as nat {
                    lemma_pow2_monotone(class_of(size as nat), (i - 1) as nat);
                    lemma_class_of_fits(size as nat);
                    assert(false);
                }
            }
            return i;
        }
    }
}

/// `pow2` is monotone: a larger exponent gives at least as large a power.
pub proof fn lemma_pow2_monotone(e1: nat, e2: nat)
    requires
        e1 <= e2,
    ensures
        pow2(e1) <= pow2(e2),
{
    if e1 < e2 {
        lemma_pow2_strictly_increases(e1, e2);
    }
}

} // verus!
