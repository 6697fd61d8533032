use vstd::prelude::*;
use crate::fixed::{
    FX_ONE, FX_HALF, FX_QUARTER, fx_mul, fx_add, fx_sub, fx_div, fx_clamp, fx_sqrt,
    fx_mul_s, fx_add_s, fx_sub_s, fx_div_s, fx_clamp_s, fx_sqrt_s,
    lemma_fx_mul_unit_bound, lemma_sqrt_le,
};
use vstd::arithmetic::power2::{pow2, lemma2_to64, lemma_pow2_unfold, lemma_pow2_strictly_increases};

verus! {

// Transcendental functions on Q32.32 values, evaluated by short series.
// Each function's contract gives the exact value of the approximation it
// computes; the callers' physics only needs the stated ranges.

/// 2*pi in Q32.32.
pub const FX_TWO_PI: i64 = 26986075409;

/// pi in Q32.32.
pub const FX_PI: i64 = 13493037705;

/// ln 2 in Q32.32.
pub const FX_LN2: i64 = 2977044472;

// Reciprocals of the small integers the series divide by, in Q32.32.
pub const INV12: i64 = 357913941;
pub const INV30: i64 = 143165577;
pub const INV56: i64 = 76695845;
pub const INV3: i64 = 1431655765;
pub const INV5: i64 = 858993459;
pub const INV7: i64 = 613566757;

// Coefficients of the arc-cosine polynomial, in Q32.32.
pub const ACOS_A0: i64 = 6746228827;
pub const ACOS_A1: i64 = 911024411;
pub const ACOS_A2: i64 = 318948566;
pub const ACOS_A3: i64 = 80441731;

/// Taylor polynomial for the cosine of x turns, x in [0, 1/4].
pub open spec fn cos_kernel_s(x: int) -> int {
    let th = fx_mul_s(x, FX_TWO_PI as int);
    let t2 = fx_mul_s(th, th);
    let a1 = fx_sub_s(FX_ONE as int, fx_mul_s(t2, INV56 as int));
    let a2 = fx_sub_s(FX_ONE as int, fx_mul_s(fx_mul_s(t2, a1), INV30 as int));
    let a3 = fx_sub_s(FX_ONE as int, fx_mul_s(fx_mul_s(t2, a2), INV12 as int));
    let c = fx_sub_s(FX_ONE as int, fx_mul_s(fx_mul_s(t2, a3), FX_HALF as int));
    fx_clamp_s(c, -(FX_ONE as int), FX_ONE as int)
}

fn cos_kernel(x: i64) -> (r: i64)
    ensures
        r as int == cos_kernel_s(x as int),
        -FX_ONE <= r <= FX_ONE,
{
    let th: i64 = fx_mul(x, FX_TWO_PI);
    let t2: i64 = fx_mul(th, th);
    let a1: i64 = fx_sub(FX_ONE, fx_mul(t2, INV56));
    let a2: i64 = fx_sub(FX_ONE, fx_mul(fx_mul(t2, a1), INV30));
    let a3: i64 = fx_sub(FX_ONE, fx_mul(fx_mul(t2, a2), INV12));
    let c: i64 = fx_sub(FX_ONE, fx_mul(fx_mul(t2, a3), FX_HALF));
    fx_clamp(c, -FX_ONE, FX_ONE)
}

/// Cosine of u turns, u in [0, 1], by quadrant reduction into the kernel.
pub open spec fn cos_turns_s(u: int) -> int {
    if u < FX_QUARTER as int {
        cos_kernel_s(u)
    } else if u < FX_HALF as int {
        -cos_kernel_s(FX_HALF as int - u)
    } else if u < 3 * FX_QUARTER as int {
        -cos_kernel_s(u - FX_HALF as int)
    } else {
        cos_kernel_s(FX_ONE as int - u)
    }
}

/// Cosine of a whole-turn fraction.
pub fn cos_turns(u: i64) -> (r: i64)
    requires
        0 <= u <= FX_ONE,
    ensures
        r as int == cos_turns_s(u as int),
        -FX_ONE <= r <= FX_ONE,
{
    if u < FX_QUARTER {
        cos_kernel(u)
    } else if u < FX_HALF {
        -cos_kernel(FX_HALF - u)
    } else if u < 3 * FX_QUARTER {
        -cos_kernel(u - FX_HALF)
    } else {
        cos_kernel(FX_ONE - u)
    }
}

/// Sine of u turns for u in [0, 1/4], via the complementary cosine;
/// exactly zero at zero.
pub open spec fn sin_turns_s(u: int) -> int {
    if u == 0 {
        0
    } else {
        cos_kernel_s(FX_QUARTER as int - u)
    }
}

/// Sine of a first-quadrant whole-turn fraction.
pub fn sin_turns(u: i64) -> (r: i64)
    requires
        0 <= u <= FX_QUARTER,
    ensures
        r as int == sin_turns_s(u as int),
        -FX_ONE <= r <= FX_ONE,
        u == 0 ==> r == 0,
{
    if u == 0 {
        0
    } else {
        cos_kernel(FX_QUARTER - u)
    }
}

/// Polynomial arc cosine (radians) for a cosine in [0, 1].
pub open spec fn acos_s(x: int) -> int {
    let p = fx_sub_s(
        ACOS_A0 as int,
        fx_mul_s(
            x,
            fx_sub_s(
                ACOS_A1 as int,
                fx_mul_s(x, fx_sub_s(ACOS_A2 as int, fx_mul_s(x, ACOS_A3 as int))),
            ),
        ),
    );
    fx_mul_s(fx_sqrt_s(fx_sub_s(FX_ONE as int, x)), p)
}

/// Arc cosine in radians of a nonnegative cosine; zero at exactly one.
pub fn acos_fx(x: i64) -> (r: i64)
    requires
        0 <= x <= FX_ONE,
    ensures
        r as int == acos_s(x as int),
        0 <= r <= FX_PI,
        x == FX_ONE ==> r == 0,
{
    let p3: i64 = fx_sub(ACOS_A2, fx_mul(x, ACOS_A3));
    let p2: i64 = fx_sub(ACOS_A1, fx_mul(x, p3));
    let p: i64 = fx_sub(ACOS_A0, fx_mul(x, p2));
    proof {
        lemma_fx_mul_unit_bound(x as int, ACOS_A3 as int, ACOS_A3 as int);
        lemma_fx_mul_unit_bound(x as int, p3 as int, ACOS_A2 as int);
        lemma_fx_mul_unit_bound(x as int, p2 as int, ACOS_A1 as int);
    }
    let s: i64 = fx_sqrt(fx_sub(FX_ONE, x));
    proof {
        lemma_sqrt_le((FX_ONE - x) * (FX_ONE as int), s as int, FX_ONE as int);
        lemma_fx_mul_unit_bound(s as int, p as int, ACOS_A0 as int);
        if x == FX_ONE {
            assert(s == 0) by (nonlinear_arith)
                requires
                    s >= 0,
                    (s as int) * (s as int) <= 0;
            let ap = crate::fixed::fx_abs_int(p as int);
            assert(0 * ap == 0) by (nonlinear_arith);
            assert(0int / (FX_ONE as int) == 0) by (nonlinear_arith);
            assert(fx_mul_s(0, p as int) == 0);
            assert(fx_mul_s(s as int, p as int) == 0);
        }
    }
    fx_mul(s, p)
}

/// Number of doublings that bring a positive value up into [1/2, 1).
pub open spec fn ln_shift_s(m: int) -> nat
    recommends
        1 <= m,
    decreases FX_ONE as int - m,
        when 1 <= m
{
    if m >= FX_HALF as int {
        0
    } else {
        1 + ln_shift_s(2 * m)
    }
}

/// Series for -ln(m) on [1/2, 1): two atanh terms of (1-m)/(1+m).
pub open spec fn atanh2_s(m: int) -> int {
    let w = fx_div_s(fx_sub_s(FX_ONE as int, m), fx_add_s(FX_ONE as int, m));
    let w2 = fx_mul_s(w, w);
    let t = fx_mul_s(
        w,
        fx_add_s(
            FX_ONE as int,
            fx_mul_s(
                w2,
                fx_add_s(INV3 as int, fx_mul_s(w2, fx_add_s(INV5 as int, fx_mul_s(w2, INV7 as int)))),
            ),
        ),
    );
    fx_add_s(t, t)
}

/// Negative natural logarithm of u in (0, 1], by normalization and the
/// atanh series.
pub open spec fn neg_ln_s(u: int) -> int {
    if u >= FX_ONE as int {
        0
    } else {
        let k = ln_shift_s(u);
        let m = u * pow2(k);
        fx_add_s(k * (FX_LN2 as int), atanh2_s(m))
    }
}

/// Negative natural logarithm of a positive fixed-point value at most one.
pub fn neg_ln(u: i64) -> (r: i64)
    requires
        1 <= u <= FX_ONE,
    ensures
        r as int == neg_ln_s(u as int),
        r >= 0,
        u == FX_ONE ==> r == 0,
{
    if u >= FX_ONE {
        return 0;
    }
    let mut m: i64 = u;
    let mut k: u64 = 0;
    proof {
        lemma2_to64();
    }
    while m < FX_HALF
        invariant
            1 <= m < FX_ONE,
            m as int == (u as int) * pow2(k as nat),
            ln_shift_s(u as int) == k as nat + ln_shift_s(m as int),
            k <= 31,
            1 <= u < FX_ONE,
        decreases FX_ONE as int - m as int,
    {
        proof {
            lemma2_to64();
            assert(ln_shift_s(m as int) == 1 + ln_shift_s(2 * m as int));
            lemma_pow2_unfold(k as nat + 1);
            assert(2 * (m as int) == (u as int) * pow2(k as nat + 1)) by (nonlinear_arith)
                requires
                    m as int == (u as int) * pow2(k as nat),
                    pow2(k as nat + 1) == 2 * pow2(k as nat);
            assert(2 * (m as int) >= pow2(k as nat + 1)) by (nonlinear_arith)
                requires
                    2 * (m as int) == (u as int) * pow2(k as nat + 1),
                    u >= 1,
                    pow2(k as nat + 1) >= 0;
            if k + 1 > 31 {
                if k as nat + 1 > 32 {
                    lemma_pow2_strictly_increases(32, k as nat + 1);
                }
                assert(pow2(k as nat + 1) >= 0x1_0000_0000);
                assert(false);
            }
        }
        m = m * 2;
        k = k + 1;
    }
    let kl: i64 = (k as i64) * FX_LN2;
    let w: i64 = fx_div(fx_sub(FX_ONE, m), fx_add(FX_ONE, m));
    proof {
        let one = FX_ONE as int;
        let num = (one - m as int) * one;
        let den = one + m as int;
        vstd::arithmetic::div_mod::lemma_div_pos_is_pos(num, den);
        vstd::arithmetic::div_mod::lemma_div_is_ordered(num, den * one, den);
        vstd::arithmetic::div_mod::lemma_div_multiples_vanish(one, den);
        assert(0 <= w as int <= one);
    }
    let w2: i64 = fx_mul(w, w);
    let t: i64 = fx_mul(
        w,
        fx_add(
            FX_ONE,
            fx_mul(w2, fx_add(INV3, fx_mul(w2, fx_add(INV5, fx_mul(w2, INV7))))),
        ),
    );
    proof {
        assert(fx_mul_s(w as int, w as int) >= 0);
        lemma_fx_mul_unit_bound(w as int, w as int, FX_ONE as int);
    }
    let r: i64 = fx_add(kl, fx_add(t, t));
    proof {
        assert(w >= 0);
        assert(t >= 0) by {
            assert(fx_mul_s(w2 as int, INV7 as int) >= 0);
        };
    }
    r
}

} // verus!
