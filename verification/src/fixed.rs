//! Fixed-point arithmetic on hundredths.

use vstd::prelude::*;

verus! {

/// Fixed-point steps per unit: a length of one metre is held as `SCALE`.
pub const SCALE: u32 = 100;

/// The least `q` with `q * b >= a`, for `a >= 0` and `b > 0`.
pub open spec fn ceil_div(a: int, b: int) -> int {
    (a + b - 1) / b
}

/// `a / b` rounded to the nearest integer, halves upwards, for `b > 0`.
pub open spec fn round_div(a: int, b: int) -> int {
    (2 * a + b) / (2 * b)
}

/// `ceil_div(a, b)` is the least multiple count of `b` that covers `a`.
pub proof fn lemma_ceil_div_covers(a: int, b: int)
    requires
        a >= 0,
        b > 0,
    ensures
        ceil_div(a, b) >= 0,
        ceil_div(a, b) * b >= a,
        (ceil_div(a, b) - 1) * b < a,
        ceil_div(a, b) <= a,
{
    let q = ceil_div(a, b);
    let n = a + b - 1;
    assert(n == b * (n / b) + n % b && 0 <= n % b < b) by (nonlinear_arith)
        requires
            b > 0,
    ;
    assert(q * b == b * q) by (nonlinear_arith);
    assert((q - 1) * b == q * b - b) by (nonlinear_arith);
    assert(q >= 0) by (nonlinear_arith)
        requires
            q * b >= a,
            (q - 1) * b < a,
            a >= 0,
            b > 0,
    ;
    assert(q <= a) by (nonlinear_arith)
        requires
            (q - 1) * b < a,
            a >= 0,
            b >= 1,
            q >= 0,
    ;
}

/// Ceiling division of lengths.
pub fn ceil_div_u32(a: u32, b: u32) -> (q: u32)
    requires
        b > 0,
    ensures
        q == ceil_div(a as int, b as int),
{
    proof {
        lemma_ceil_div_covers(a as int, b as int);
    }
    let whole: u32 = a / b;
    let rest: u32 = a % b;
    proof {
        let ai = a as int;
        let bi = b as int;
        assert(ai == bi * (ai / bi) + ai % bi && 0 <= ai % bi < bi) by (nonlinear_arith)
            requires
                bi > 0,
        ;
        let w = ai / bi;
        if rest == 0 {
            assert(w * bi >= ai) by (nonlinear_arith)
                requires
                    ai == bi * w,
            ;
            assert(w >= ceil_div(ai, bi)) by (nonlinear_arith)
                requires
                    (ceil_div(ai, bi) - 1) * bi < ai,
                    w * bi >= ai,
                    bi > 0,
            ;
            assert(w <= ceil_div(ai, bi)) by (nonlinear_arith)
                requires
                    ceil_div(ai, bi) * bi >= ai,
                    ai == bi * w,
                    bi > 0,
            ;
        } else {
            assert((w + 1) * bi >= ai) by (nonlinear_arith)
                requires
                    ai == bi * w + ai % bi,
                    ai % bi < bi,
            ;
            assert(w + 1 >= ceil_div(ai, bi)) by (nonlinear_arith)
                requires
                    (ceil_div(ai, bi) - 1) * bi < ai,
                    (w + 1) * bi >= ai,
                    bi > 0,
            ;
            assert(w + 1 <= ceil_div(ai, bi)) by (nonlinear_arith)
                requires
                    ceil_div(ai, bi) * bi >= ai,
                    ai == bi * w + ai % bi,
                    ai % bi > 0,
                    bi > 0,
            ;
        }
    }
    if rest == 0 {
        whole
    } else {
        whole + 1
    }
}

} // verus!
