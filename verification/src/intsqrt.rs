//! Floor integer square root, specification side.
//!
//! The pool math narrows 256-bit square roots through a trusted wrapper
//! whose contract brackets the result (`r * r <= n < (r + 1) * (r + 1)`).
//! This module gives that bracket a unique mathematical witness,
//! `int_sqrt`, so contracts can speak of "the" floor square root.

use vstd::prelude::*;

verus! {

/// Largest `j <= k` with `j * j <= n` (`0` if there is none).
pub open spec fn sqrt_search(n: nat, k: nat) -> nat
    decreases k,
{
    if k == 0 {
        0
    } else if k * k <= n {
        k
    } else {
        sqrt_search(n, (k - 1) as nat)
    }
}

/// Floor of the square root of `n`.
pub open spec fn int_sqrt(n: nat) -> nat {
    sqrt_search(n, n)
}

proof fn lemma_sqrt_search(n: nat, k: nat)
    ensures
        sqrt_search(n, k) <= k,
        sqrt_search(n, k) * sqrt_search(n, k) <= n,
        forall|j: nat| j <= k && #[trigger] (j * j) <= n ==> j <= sqrt_search(n, k),
    decreases k,
{
    if k == 0 {
    } else if k * k <= n {
    } else {
        lemma_sqrt_search(n, (k - 1) as nat);
    }
}

/// `int_sqrt(n)` is the floor square root: its square is at most `n` and
/// the next square is beyond `n`.
pub proof fn lemma_int_sqrt(n: nat)
    ensures
        int_sqrt(n) * int_sqrt(n) <= n,
        n < (int_sqrt(n) + 1) * (int_sqrt(n) + 1),
{
    lemma_sqrt_search(n, n);
    let r = int_sqrt(n);
    if (r + 1) * (r + 1) <= n {
        assert(r + 1 <= (r + 1) * (r + 1)) by (nonlinear_arith);
        assert((r + 1) * (r + 1) <= n);
        assert(false);
    }
}

/// The bracket `r * r <= n < (r + 1) * (r + 1)` has a unique solution.
pub proof fn lemma_int_sqrt_unique(n: nat, r: nat)
    requires
        r * r <= n,
        n < (r + 1) * (r + 1),
    ensures
        r == int_sqrt(n),
{
    lemma_int_sqrt(n);
    let s = int_sqrt(n);
    if r < s {
        assert((r + 1) * (r + 1) <= s * s) by (nonlinear_arith)
            requires
                r + 1 <= s,
        ;
        assert(false);
    }
    if s < r {
        assert((s + 1) * (s + 1) <= r * r) by (nonlinear_arith)
            requires
                s + 1 <= r,
        ;
        assert(false);
    }
}

/// Squares respect order backwards: `u * u <= w * w` forces `u <= w`.
pub proof fn lemma_sq_le(u: nat, w: nat)
    requires
        u * u <= w * w,
    ensures
        u <= w,
{
    if w < u {
        assert(w * w < u * u) by (nonlinear_arith)
            requires
                w < u,
        ;
        assert(false);
    }
}

} // verus!
