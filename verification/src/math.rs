//! Integer arithmetic underlying the force kernel: truncating division
//! (quotient rounded toward zero, as machine division of signed integers
//! rounds), integer square roots, and a fused multiply-divide with 128-bit
//! intermediates.

use vstd::prelude::*;
use vstd::arithmetic::div_mod::{lemma_div_by_multiple, lemma_div_is_ordered, lemma_div_pos_is_pos};

verus! {

/// Absolute value, kept in `int` so it composes with signed arithmetic.
pub open spec fn absi(x: int) -> int {
    if x < 0 {
        -x
    } else {
        x
    }
}

/// Quotient of `n / d` rounded toward zero (for `d > 0`). Euclidean division
/// rounds toward negative infinity; machine division of signed integers
/// truncates, and truncation is what keeps scaling an odd function of its
/// numerator.
pub open spec fn div_t(n: int, d: int) -> int {
    if n >= 0 {
        n / d
    } else {
        -((-n) / d)
    }
}

/// Truncating division is odd in its numerator.
pub proof fn lemma_div_t_neg(n: int, d: int)
    requires
        d >= 1,
    ensures
        div_t(-n, d) == -div_t(n, d),
{
}

/// The magnitude of a truncated quotient is the quotient of the magnitudes.
pub proof fn lemma_div_t_abs(n: int, d: int)
    requires
        d >= 1,
    ensures
        absi(div_t(n, d)) == absi(n) / d,
{
    if n >= 0 {
        lemma_div_pos_is_pos(n, d);
    } else {
        lemma_div_pos_is_pos(-n, d);
    }
}

/// A truncated quotient never exceeds the bound `b` when the numerator's
/// magnitude is at most `b * d`.
pub proof fn lemma_div_t_le(n: int, d: int, b: int)
    requires
        d >= 1,
        b >= 0,
        absi(n) <= b * d,
    ensures
        absi(div_t(n, d)) <= b,
{
    lemma_div_t_abs(n, d);
    lemma_div_is_ordered(absi(n), b * d, d);
    lemma_div_by_multiple(b, d);
}

/// The sign of a truncated quotient follows the sign of its numerator.
pub proof fn lemma_div_t_sign(n: int, d: int)
    requires
        d >= 1,
    ensures
        n >= 0 ==> div_t(n, d) >= 0,
        n <= 0 ==> div_t(n, d) <= 0,
{
    if n >= 0 {
        lemma_div_pos_is_pos(n, d);
    } else {
        lemma_div_pos_is_pos(-n, d);
    }
}

/// Floor of the square root, defined by counting up.
pub open spec fn isqrt_s(n: nat) -> nat
    decreases n,
{
    if n == 0 {
        0
    } else {
        let r = isqrt_s((n - 1) as nat);
        if (r + 1) * (r + 1) <= n {
            r + 1
        } else {
            r
        }
    }
}

/// `isqrt_s(n)` is the greatest integer whose square is at most `n`.
pub proof fn lemma_isqrt_s(n: nat)
    ensures
        isqrt_s(n) * isqrt_s(n) <= n,
        n < (isqrt_s(n) + 1) * (isqrt_s(n) + 1),
    decreases n,
{
    if n == 0 {
        assert(n < (isqrt_s(n) + 1) * (isqrt_s(n) + 1)) by (nonlinear_arith)
            requires
                n == 0,
                isqrt_s(n) == 0,
        ;
    } else {
        lemma_isqrt_s((n - 1) as nat);
        let r = isqrt_s((n - 1) as nat);
        if (r + 1) * (r + 1) <= n {
            assert(isqrt_s(n) == r + 1);
            assert((r + 1) * (r + 1) + 1 <= (r + 2) * (r + 2)) by (nonlinear_arith);
            assert(n <= (r + 1) * (r + 1)) by {
                assert(((n - 1) as nat) < (r + 1) * (r + 1));
            }
        } else {
            assert(isqrt_s(n) == r);
            assert(r * r <= (n - 1) as nat);
        }
    }
}

/// Any integer satisfying the floor-square-root characterization is `isqrt_s`.
pub proof fn lemma_isqrt_unique(n: nat, r: nat)
    requires
        r * r <= n,
        n < (r + 1) * (r + 1),
    ensures
        r == isqrt_s(n),
{
    lemma_isqrt_s(n);
    let s = isqrt_s(n);
    if r < s {
        assert((r + 1) * (r + 1) <= s * s) by (nonlinear_arith)
            requires
                r + 1 <= s,
                r >= 0,
        ;
    }
    if s < r {
        assert((s + 1) * (s + 1) <= r * r) by (nonlinear_arith)
            requires
                s + 1 <= r,
                s >= 0,
        ;
    }
}

/// Ceiling of the square root.
pub open spec fn isqrt_c(n: nat) -> nat {
    if isqrt_s(n) * isqrt_s(n) == n {
        isqrt_s(n)
    } else {
        isqrt_s(n) + 1
    }
}

/// `isqrt_c(n)` squared dominates `n`, and is positive as soon as `n` is.
pub proof fn lemma_isqrt_c(n: nat)
    ensures
        n <= isqrt_c(n) * isqrt_c(n),
        n >= 1 ==> isqrt_c(n) >= 1,
{
    lemma_isqrt_s(n);
}

/// A square below `n` has its root at most the ceiling square root of `n`.
pub proof fn lemma_le_isqrt_c(n: nat, k: nat)
    requires
        k * k <= n,
    ensures
        k <= isqrt_c(n),
{
    lemma_isqrt_s(n);
    if k > isqrt_c(n) {
        assert(false) by (nonlinear_arith)
            requires
                k * k <= n,
                n < (isqrt_s(n) + 1) * (isqrt_s(n) + 1),
                k > isqrt_s(n),
        ;
    }
}

/// Floor square root of a 128-bit value, by binary search.
pub fn isqrt(n: u128) -> (r: u128)
    ensures
        r as nat == isqrt_s(n as nat),
        r * r <= n,
{
    let mut lo: u128 = 0;
    let mut hi: u128 = 0x10000000000000000;
    proof {
        assert((0x10000000000000000 as int) * (0x10000000000000000 as int) > u128::MAX as int)
            by (nonlinear_arith);
    }
    while hi - lo > 1
        invariant
            lo < hi,
            hi <= 0x10000000000000000,
            (lo as nat) * (lo as nat) <= n as nat,
            (n as nat) < (hi as nat) * (hi as nat),
        decreases hi - lo,
    {
        let mid: u128 = lo + (hi - lo) / 2;
        proof {
            assert((mid as nat) * (mid as nat) < (hi as nat) * (hi as nat)) by (nonlinear_arith)
                requires
                    0 <= mid < hi,
            ;
            assert((hi as nat) * (hi as nat) <= 0x100000000000000000000000000000000)
                by (nonlinear_arith)
                requires
                    hi <= 0x10000000000000000u128,
            ;
        }
        let m2: u128 = mid * mid;
        if m2 <= n {
            lo = mid;
        } else {
            hi = mid;
        }
    }
    proof {
        lemma_isqrt_unique(n as nat, lo as nat);
    }
    lo
}

/// Ceiling square root of a 128-bit value.
pub fn isqrt_ceil(n: u128) -> (r: u128)
    ensures
        r as nat == isqrt_c(n as nat),
{
    let s = isqrt(n);
    proof {
        lemma_isqrt_s(n as nat);
        assert((s as nat) * (s as nat) < 0x100000000000000000000000000000000)
            by (nonlinear_arith)
            requires
                (s as nat) * (s as nat) <= n as nat,
                n <= u128::MAX,
        ;
        assert(s < 0x10000000000000000u128) by (nonlinear_arith)
            requires
                (s as nat) * (s as nat) <= u128::MAX as nat,
        ;
    }
    let s2: u128 = s * s;
    if s2 == n {
        s
    } else {
        s + 1
    }
}

/// Fused `trunc(a * b / d)` with unsigned 128-bit intermediates, so the
/// product cannot overflow. The caller guarantees the quotient fits in `i64`.
pub fn mul_div_t(a: i64, b: i64, d: u128) -> (r: i64)
    requires
        d >= 1,
        a > i64::MIN,
        b > i64::MIN,
        absi(div_t(a as int * b as int, d as int)) <= i64::MAX as int,
    ensures
        r as int == div_t(a as int * b as int, d as int),
{
    let na: u64 = if a >= 0 {
        a as u64
    } else {
        (-a) as u64
    };
    let nb: u64 = if b >= 0 {
        b as u64
    } else {
        (-b) as u64
    };
    proof {
        assert((na as nat) * (nb as nat) < 0x100000000000000000000000000000000)
            by (nonlinear_arith)
            requires
                na <= 0x8000000000000000u64,
                nb <= 0x8000000000000000u64,
        ;
    }
    let p: u128 = (na as u128) * (nb as u128);
    let q: u128 = p / d;
    let neg: bool = (a < 0) != (b < 0);
    proof {
        assert(a as int * b as int == (if ((a as int) < 0) != ((b as int) < 0) {
            -((na as int) * (nb as int))
        } else {
            (na as int) * (nb as int)
        })) by (nonlinear_arith)
            requires
                na as int == absi(a as int),
                nb as int == absi(b as int),
        ;
        lemma_div_t_abs(a as int * b as int, d as int);
        lemma_div_t_neg((na as int) * (nb as int), d as int);
        lemma_div_pos_is_pos((na as int) * (nb as int), d as int);
    }
    if neg {
        -(q as i64)
    } else {
        q as i64
    }
}

} // verus!
