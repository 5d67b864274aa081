//! Index arithmetic on a ring: wrapping any integer into `0 .. n`.

use vstd::prelude::*;
use vstd::arithmetic::div_mod::{lemma_fundamental_div_mod, lemma_fundamental_div_mod_converse, lemma_mod_bound};

verus! {

/// The position on a ring of `n` places that the index `i` denotes: the
/// mathematical remainder, which is never negative.
pub open spec fn wrap(i: int, n: int) -> int {
    i % n
}

/// The remainder of a negative index, from the remainder of its mirror
/// image `-(i + 1)`.
pub proof fn lemma_wrap_negative(i: int, n: int)
    requires
        i < 0,
        n > 0,
    ensures
        wrap(i, n) == n - 1 - (-(i + 1)) % n,
{
    let k = -(i + 1);
    lemma_fundamental_div_mod(k, n);
    lemma_mod_bound(k, n);
    let q = -(k / n) - 1;
    let r = n - 1 - k % n;
    assert(i == q * n + r) by (nonlinear_arith)
        requires
            k == n * (k / n) + k % n,
            i == -(k + 1),
            q == -(k / n) - 1,
            r == n - 1 - k % n,
    ;
    lemma_fundamental_div_mod_converse(i, n, q, r);
}

/// Going once round the ring changes nothing.
pub proof fn lemma_wrap_period(i: int, n: int)
    requires
        n > 0,
    ensures
        wrap(i + n, n) == wrap(i, n),
        wrap(i - n, n) == wrap(i, n),
        0 <= wrap(i, n) < n,
{
    lemma_fundamental_div_mod(i, n);
    lemma_mod_bound(i, n);
    let q = i / n;
    let r = i % n;
    assert(i + n == (q + 1) * n + r) by (nonlinear_arith)
        requires
            i == n * q + r,
    ;
    assert(i - n == (q - 1) * n + r) by (nonlinear_arith)
        requires
            i == n * q + r,
    ;
    lemma_fundamental_div_mod_converse(i + n, n, q + 1, r);
    lemma_fundamental_div_mod_converse(i - n, n, q - 1, r);
}

/// An index already on the ring denotes itself.
pub proof fn lemma_wrap_small(i: int, n: int)
    requires
        0 <= i < n,
    ensures
        wrap(i, n) == i,
{
    lemma_fundamental_div_mod_converse(i, n, 0, i);
}

/// Wraps `i` into `0 .. n`.
pub fn wrap_index(i: isize, n: usize) -> (r: usize)
    requires
        n > 0,
    ensures
        r == wrap(i as int, n as int),
        r < n,
{
    if i >= 0 {
        proof {
            lemma_mod_bound(i as int, n as int);
        }
        (i as usize) % n
    } else {
        let mirror: usize = (-(i + 1)) as usize;
        proof {
            lemma_wrap_negative(i as int, n as int);
            lemma_mod_bound(mirror as int, n as int);
        }
        n - 1 - mirror % n
    }
}

} // verus!
