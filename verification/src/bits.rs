//! Counting of bits.

use vstd::prelude::*;

verus! {

/// Whether bit `i` is set.
pub open spec fn has_bit(x: u32, i: nat) -> bool {
    (x >> (i as u32)) & 1 == 1
}

/// How many of the lowest `n` bits are set.
pub open spec fn low_bits(x: u32, n: nat) -> nat
    decreases n,
{
    if n == 0 {
        0
    } else {
        low_bits(x, (n - 1) as nat) + (if has_bit(x, (n - 1) as nat) {
            1nat
        } else {
            0nat
        })
    }
}

/// How many bits are set.
pub open spec fn bit_count(x: u32) -> nat {
    low_bits(x, 32)
}

/// Setting a bit that is not set counts one more; without bits there is nothing
/// to count.
pub proof fn law_each_bit_counts_once(x: u32, i: u32)
    requires
        i < 32,
        (x >> i) & 1 == 0,
    ensures
        bit_count(x | (1u32 << i)) == bit_count(x) + 1,
        bit_count(0) == 0,
        bit_count(x) <= 31,
{
    lemma_bit_added(x, i, 32);
    lemma_no_bits(32);
    lemma_low_bits_bound(x, 32);
    lemma_low_bits_bound(x | (1u32 << i), 32);
}

proof fn lemma_bit_added(x: u32, i: u32, n: nat)
    requires
        i < 32,
        (x >> i) & 1 == 0,
        n <= 32,
    ensures
        low_bits(x | (1u32 << i), n) == low_bits(x, n) + (if i < n {
            1nat
        } else {
            0nat
        }),
    decreases n,
{
    if n > 0 {
        lemma_bit_added(x, i, (n - 1) as nat);
        let k = (n - 1) as u32;
        assert(k != i ==> ((x | (1u32 << i)) >> k) & 1 == (x >> k) & 1) by (bit_vector)
            requires
                k < 32,
                i < 32,
        ;
        assert(((x | (1u32 << i)) >> i) & 1 == 1) by (bit_vector)
            requires
                i < 32,
        ;
    }
}

proof fn lemma_no_bits(n: nat)
    requires
        n <= 32,
    ensures
        low_bits(0, n) == 0,
    decreases n,
{
    if n > 0 {
        lemma_no_bits((n - 1) as nat);
        let k = (n - 1) as u32;
        assert((0u32 >> k) & 1 == 0) by (bit_vector);
    }
}

proof fn lemma_low_bits_bound(x: u32, n: nat)
    ensures
        low_bits(x, n) <= n,
    decreases n,
{
    if n > 0 {
        lemma_low_bits_bound(x, (n - 1) as nat);
    }
}

/// Counts the bits that are set.
pub fn count_ones(x: u32) -> (r: u32)
    ensures
        r == bit_count(x),
        r <= 32,
{
    let mut n: u32 = 0;
    let mut i: u32 = 0;
    while i < 32
        invariant
            i <= 32,
            n <= i,
            n == low_bits(x, i as nat),
        decreases 32 - i,
    {
        if (x >> i) & 1 == 1 {
            n += 1;
        }
        i += 1;
    }
    n
}

} // verus!
