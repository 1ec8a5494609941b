//! Rounding up to multiples.

use vstd::prelude::*;

verus! {

/// The smallest multiple of `a` that is at least `n`.
pub open spec fn round_up(n: int, a: int) -> int {
    if n % a == 0 {
        n
    } else {
        n + (a - n % a)
    }
}

/// Rounding up gives a multiple, less than one step away.
pub proof fn lemma_round_up(n: int, a: int)
    requires
        a > 0,
        n >= 0,
    ensures
        round_up(n, a) % a == 0,
        n <= round_up(n, a) < n + a,
{
    vstd::arithmetic::div_mod::lemma_mod_bound(n, a);
    if n % a != 0 {
        let r = n + (a - n % a);
        vstd::arithmetic::div_mod::lemma_fundamental_div_mod(n, a);
        assert(r == a * (n / a + 1)) by (nonlinear_arith)
            requires
                n == a * (n / a) + n % a,
                r == n + (a - n % a),
        ;
        vstd::arithmetic::div_mod::lemma_mod_multiples_basic(n / a + 1, a);
        assert(a * (n / a + 1) == (n / a + 1) * a) by (nonlinear_arith);
    }
}

/// Rounds `n` up to a multiple of `a`.
pub fn next_multiple_of(n: u64, a: u64) -> (r: u64)
    requires
        a > 0,
        round_up(n as int, a as int) <= u64::MAX,
    ensures
        r == round_up(n as int, a as int),
{
    let rest: u64 = n % a;
    if rest == 0 {
        n
    } else {
        n + (a - rest)
    }
}

/// Rounds `n` up to a multiple of `a`.
pub fn next_multiple_of_u32(n: u32, a: u32) -> (r: u32)
    requires
        a > 0,
        round_up(n as int, a as int) <= u32::MAX,
    ensures
        r == round_up(n as int, a as int),
{
    let rest: u32 = n % a;
    if rest == 0 {
        n
    } else {
        n + (a - rest)
    }
}

/// Rounds `n` up to a multiple of `a`.
pub fn next_multiple_of_usize(n: usize, a: usize) -> (r: usize)
    requires
        a > 0,
        round_up(n as int, a as int) <= usize::MAX,
    ensures
        r == round_up(n as int, a as int),
{
    let rest: usize = n % a;
    if rest == 0 {
        n
    } else {
        n + (a - rest)
    }
}

} // verus!
