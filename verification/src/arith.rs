//! The integer arithmetic of the pool, as mathematics.

use vstd::prelude::*;

verus! {

/// Whether `x` can be held in an `i128`.
pub open spec fn fits(x: int) -> bool {
    i128::MIN <= x <= i128::MAX
}

/// The magnitude of `x`.
pub open spec fn magnitude(x: int) -> int {
    if x < 0 {
        -x
    } else {
        x
    }
}

/// The quotient of `a` and `b`, rounded toward zero.
pub open spec fn quotient(a: int, b: int) -> int {
    if (a < 0) == (b < 0) {
        magnitude(a) / magnitude(b)
    } else {
        -(magnitude(a) / magnitude(b))
    }
}

/// Whether `r` is the square root of `n`, rounded down.
pub open spec fn is_sqrt(n: int, r: int) -> bool {
    0 <= r && r * r <= n < (r + 1) * (r + 1)
}

/// The square root of `n`, rounded down.
pub open spec fn isqrt(n: int) -> int {
    choose|r: int| is_sqrt(n, r)
}

/// A number has at most one square root rounded down.
pub proof fn lemma_isqrt_unique(n: int, r: int)
    requires
        is_sqrt(n, r),
    ensures
        isqrt(n) == r,
{
    let q = isqrt(n);
    assert(is_sqrt(n, q));
    assert(q == r) by (nonlinear_arith)
        requires
            0 <= q,
            0 <= r,
            q * q <= n < (q + 1) * (q + 1),
            r * r <= n < (r + 1) * (r + 1),
    ;
}

/// Every number that is not negative has a square root rounded down.
pub proof fn lemma_isqrt_exists(n: int)
    requires
        n >= 0,
    ensures
        is_sqrt(n, isqrt(n)),
    decreases n,
{
    if n == 0 {
        assert(is_sqrt(0, 0));
    } else {
        lemma_isqrt_exists(n - 1);
        let r = isqrt(n - 1);
        if (r + 1) * (r + 1) <= n {
            assert((r + 1) * (r + 1) < (r + 2) * (r + 2)) by (nonlinear_arith)
                requires
                    r >= 0,
            ;
            assert(is_sqrt(n, r + 1));
        } else {
            assert(is_sqrt(n, r));
        }
    }
}

/// One step of Newton's method from `x` does not fall below the square root of `n`.
pub proof fn lemma_newton_step(n: int, x: int)
    requires
        n >= 0,
        x > 0,
    ensures
        n < ((x + n / x) / 2 + 1) * ((x + n / x) / 2 + 1),
{
    let q = n / x;
    let y = (x + q) / 2;
    vstd::arithmetic::div_mod::lemma_fundamental_div_mod(n, x);
    vstd::arithmetic::div_mod::lemma_mod_bound(n, x);
    assert(n < x * (q + 1)) by (nonlinear_arith)
        requires
            n == x * q + n % x,
            n % x < x,
    ;
    assert(4 * (x * (q + 1)) <= (x + q + 1) * (x + q + 1)) by (nonlinear_arith);
    assert(q >= 0) by {
        vstd::arithmetic::div_mod::lemma_div_pos_is_pos(n, x);
    }
    assert((x + q + 1) * (x + q + 1) <= 4 * ((y + 1) * (y + 1))) by (nonlinear_arith)
        requires
            0 <= x + q + 1 <= 2 * (y + 1),
    ;
}

/// A point above the square root of `n` and at most `n` is a point from which Newton's method can
/// step without leaving the range of `n + 1`.
pub proof fn lemma_newton_start(n: int, x: int)
    requires
        n > 0,
        0 <= x <= n,
        n < (x + 1) * (x + 1),
    ensures
        x > 0,
        1 <= n / x <= n,
        x + n / x <= n + 1,
{
    assert(x > 0) by (nonlinear_arith)
        requires
            n > 0,
            0 <= x,
            n < (x + 1) * (x + 1),
    ;
    let q = n / x;
    vstd::arithmetic::div_mod::lemma_fundamental_div_mod(n, x);
    vstd::arithmetic::div_mod::lemma_mod_bound(n, x);
    assert(q >= 1) by (nonlinear_arith)
        requires
            n == x * q + n % x,
            n % x < x,
            0 < x <= n,
    ;
    assert(x + q <= x * q + 1) by (nonlinear_arith)
        requires
            x >= 1,
            q >= 1,
    ;
}

/// A step of Newton's method from a point below `n` adds nothing that goes beyond `n`, unless `n`
/// is tiny.
pub proof fn lemma_newton_fits(n: int, x: int)
    requires
        0 < x < n,
        n < (x + 1) * (x + 1),
    ensures
        x + n / x <= n || n <= 3,
{
    let q = n / x;
    lemma_newton_start(n, x);
    vstd::arithmetic::div_mod::lemma_fundamental_div_mod(n, x);
    vstd::arithmetic::div_mod::lemma_mod_bound(n, x);
    assert(x + q <= n || n <= 3) by (nonlinear_arith)
        requires
            0 < x < n,
            q >= 1,
            x * q <= n,
            n < (x + 1) * (x + 1),
    ;
}

} // verus!
