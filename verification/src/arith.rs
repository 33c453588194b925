use vstd::prelude::*;

verus! {

/// Floor of the square root of a non-negative integer.
pub open spec fn sqrt_floor(n: int) -> int
    recommends
        n >= 0,
{
    choose|r: int| #![trigger r * r] 0 <= r && r * r <= n && n < (r + 1) * (r + 1)
}

/// Any `r` whose square does not exceed `n` while `(r + 1)` squared does is
/// the floor square root of `n`: the characterization pins the value down.
pub proof fn lemma_sqrt_floor(n: int, r: int)
    requires
        0 <= r,
        r * r <= n,
        n < (r + 1) * (r + 1),
    ensures
        sqrt_floor(n) == r,
{
    assert(0 <= r && r * r <= n < (r + 1) * (r + 1));
    let s = sqrt_floor(n);
    assert(0 <= s && s * s <= n < (s + 1) * (s + 1)) by {
        assert(exists|q: int| #![trigger q * q] 0 <= q && q * q <= n && n < (q + 1) * (q + 1));
    }
    if s < r {
        assert((s + 1) * (s + 1) <= r * r) by (nonlinear_arith)
            requires
                0 <= s,
                s < r,
        ;
    }
    if r < s {
        assert((r + 1) * (r + 1) <= s * s) by (nonlinear_arith)
            requires
                0 <= r,
                r < s,
        ;
    }
}

/// The floor square root of any non-negative integer satisfies its
/// characterization: its square is at most `n`, and the next square is
/// beyond.
pub proof fn lemma_sqrt_floor_exists(n: int)
    requires
        n >= 0,
    ensures
        0 <= sqrt_floor(n),
        sqrt_floor(n) * sqrt_floor(n) <= n,
        n < (sqrt_floor(n) + 1) * (sqrt_floor(n) + 1),
    decreases n,
{
    if n == 0 {
        let q0: int = 0;
        assert(0 <= q0 && q0 * q0 <= n && n < (q0 + 1) * (q0 + 1));
        assert(exists|q: int| #![trigger q * q] 0 <= q && q * q <= n && n < (q + 1) * (q + 1));
    } else {
        lemma_sqrt_floor_exists(n - 1);
        let s = sqrt_floor(n - 1);
        if (s + 1) * (s + 1) <= n {
            let w = s + 1;
            assert(n < (w + 1) * (w + 1)) by (nonlinear_arith)
                requires
                    n <= (w) * (w),
                    w >= 0,
            ;
            assert(0 <= w && w * w <= n && n < (w + 1) * (w + 1));
            assert(exists|q: int| #![trigger q * q] 0 <= q && q * q <= n && n < (q + 1) * (q
                + 1));
        } else {
            assert(0 <= s && s * s <= n && n < (s + 1) * (s + 1));
            assert(exists|q: int| #![trigger q * q] 0 <= q && q * q <= n && n < (q + 1) * (q
                + 1));
        }
    }
}

/// Floor square root of a machine integer, by binary search on the root.
pub fn isqrt(n: u128) -> (r: u128)
    ensures
        r * r <= n < (r + 1) * (r + 1),
        r == sqrt_floor(n as int),
{
    let mut lo: u128 = 0;
    let mut hi: u128 = 0x1_0000_0000_0000_0000;
    while lo + 1 < hi
        invariant
            lo < hi <= 0x1_0000_0000_0000_0000,
            (lo as int) * (lo as int) <= n as int,
            (n as int) < (hi as int) * (hi as int),
        decreases hi - lo,
    {
        let mid = lo + (hi - lo) / 2;
        proof {
            assert(mid < hi);
            assert((mid as int) * (mid as int) < 0x1_0000_0000_0000_0000_0000_0000_0000_0000int)
                by (nonlinear_arith)
                requires
                    0 <= (mid as int) < 0x1_0000_0000_0000_0000int,
            ;
        }
        if mid * mid <= n {
            lo = mid;
        } else {
            hi = mid;
        }
    }
    proof {
        lemma_sqrt_floor(n as int, lo as int);
    }
    lo
}

/// Quotient of `a` by a positive `b`, truncated toward zero, as machine
/// division of signed integers computes it.
pub open spec fn div_trunc(a: int, b: int) -> int
    recommends
        b > 0,
{
    if a >= 0 {
        a / b
    } else {
        -((-a) / b)
    }
}

/// Truncated division by a positive divisor never grows the magnitude of the
/// dividend.
pub proof fn lemma_div_trunc_bound(a: int, b: int)
    requires
        b > 0,
    ensures
        a >= 0 ==> 0 <= div_trunc(a, b) <= a,
        a < 0 ==> a <= div_trunc(a, b) <= 0,
{
    if a >= 0 {
        vstd::arithmetic::div_mod::lemma_div_nonincreasing(a, b);
        vstd::arithmetic::div_mod::lemma_div_pos_is_pos(a, b);
    } else {
        vstd::arithmetic::div_mod::lemma_div_nonincreasing(-a, b);
        vstd::arithmetic::div_mod::lemma_div_pos_is_pos(-a, b);
    }
}

/// Truncated division takes an exact multiple back to its factor.
pub proof fn lemma_div_trunc_exact(a: int, b: int)
    requires
        b > 0,
    ensures
        div_trunc(a * b, b) == a,
{
    if a >= 0 {
        assert(a * b >= 0) by (nonlinear_arith)
            requires
                a >= 0,
                b > 0,
        ;
        vstd::arithmetic::div_mod::lemma_div_by_multiple(a, b);
    } else {
        assert(a * b < 0) by (nonlinear_arith)
            requires
                a < 0,
                b > 0,
        ;
        vstd::arithmetic::div_mod::lemma_div_by_multiple(-a, b);
        assert((-a) * b == -(a * b)) by (nonlinear_arith);
    }
}

} // verus!
