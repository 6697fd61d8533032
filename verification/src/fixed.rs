use vstd::prelude::*;

verus! {

// All optical quantities in this crate are carried in Q32.32 fixed point:
// an `i64` holds the physical value times 2^32. The primitives below
// saturate instead of wrapping, so no verified computation can panic or
// silently overflow; their contracts give the exact value returned.

/// The value one in Q32.32 fixed point.
pub const FX_ONE: i64 = 0x1_0000_0000;

/// The value one half in Q32.32 fixed point.
pub const FX_HALF: i64 = 0x8000_0000;

/// The value one quarter in Q32.32 fixed point.
pub const FX_QUARTER: i64 = 0x4000_0000;

/// Largest magnitude representable; saturation bound (symmetric).
pub const FX_MAX: i64 = 0x7fff_ffff_ffff_ffff;

/// Magnitude of an integer.
pub open spec fn fx_abs_int(x: int) -> int {
    if x < 0 { -x } else { x }
}

/// Saturate into the symmetric representable range.
pub open spec fn sat64(x: int) -> int {
    if x > FX_MAX as int {
        FX_MAX as int
    } else if x < -(FX_MAX as int) {
        -(FX_MAX as int)
    } else {
        x
    }
}

/// Attach a sign to a magnitude.
pub open spec fn fx_signed(neg: bool, m: int) -> int {
    if neg { -m } else { m }
}

/// Saturating fixed-point product: floor of |a|*|b| / 2^32 with the
/// combined sign.
pub open spec fn fx_mul_s(a: int, b: int) -> int {
    sat64(fx_signed((a < 0) != (b < 0), fx_abs_int(a) * fx_abs_int(b) / (FX_ONE as int)))
}

/// Saturating fixed-point quotient: floor of |a| * 2^32 / |b| with the
/// combined sign.
pub open spec fn fx_div_s(a: int, b: int) -> int {
    sat64(fx_signed((a < 0) != (b < 0), fx_abs_int(a) * (FX_ONE as int) / fx_abs_int(b)))
}

/// Saturating sum.
pub open spec fn fx_add_s(a: int, b: int) -> int {
    sat64(a + b)
}

/// Saturating difference.
pub open spec fn fx_sub_s(a: int, b: int) -> int {
    sat64(a - b)
}

/// Clamp into an interval.
pub open spec fn fx_clamp_s(x: int, lo: int, hi: int) -> int {
    if x < lo { lo } else if x > hi { hi } else { x }
}

/// r is the integer square root of v.
pub open spec fn is_sqrt(v: int, r: int) -> bool {
    0 <= r && r * r <= v && v < (r + 1) * (r + 1)
}

/// The integer square root (unique when it exists).
pub open spec fn sqrt_s(v: int) -> int {
    choose|r: int| is_sqrt(v, r)
}

/// Fixed-point square root of a fixed-point value: the integer square
/// root of the raw value rescaled by 2^32.
pub open spec fn fx_sqrt_s(a: int) -> int {
    sqrt_s(a * (FX_ONE as int))
}

pub proof fn lemma_sqrt_unique(v: int, r: int)
    requires
        is_sqrt(v, r),
    ensures
        sqrt_s(v) == r,
{
    assert(exists|x: int| is_sqrt(v, x));
    let r2 = sqrt_s(v);
    assert(is_sqrt(v, r2));
    assert(r == r2) by {
        if r < r2 {
            assert((r + 1) * (r + 1) <= r2 * r2) by (nonlinear_arith)
                requires 0 <= r + 1, r + 1 <= r2;
        }
        if r2 < r {
            assert((r2 + 1) * (r2 + 1) <= r * r) by (nonlinear_arith)
                requires 0 <= r2 + 1, r2 + 1 <= r;
        }
    }
}

/// Magnitude of a signed value as an unsigned one.
pub fn fx_abs_u64(a: i64) -> (r: u64)
    ensures
        r as int == fx_abs_int(a as int),
{
    if a >= 0 {
        a as u64
    } else {
        let b: i64 = -(a + 1);
        (b as u64) + 1
    }
}

/// Signed saturation of an unsigned magnitude.
fn fx_sat_signed(neg: bool, m: u128) -> (r: i64)
    ensures
        r as int == sat64(fx_signed(neg, m as int)),
{
    if m > FX_MAX as u128 {
        if neg { -FX_MAX } else { FX_MAX }
    } else {
        if neg { -(m as i64) } else { m as i64 }
    }
}

/// Fixed-point multiplication.
pub fn fx_mul(a: i64, b: i64) -> (r: i64)
    ensures
        r as int == fx_mul_s(a as int, b as int),
{
    let neg: bool = (a < 0) != (b < 0);
    let aa: u128 = fx_abs_u64(a) as u128;
    let bb: u128 = fx_abs_u64(b) as u128;
    proof {
        assert((aa as int) * (bb as int) <= 0x8000_0000_0000_0000 * 0x8000_0000_0000_0000)
            by (nonlinear_arith)
            requires
                aa <= 0x8000_0000_0000_0000u128,
                bb <= 0x8000_0000_0000_0000u128;
    }
    let p: u128 = aa * bb;
    let q: u128 = p / 0x1_0000_0000u128;
    fx_sat_signed(neg, q)
}

/// Fixed-point division.
pub fn fx_div(a: i64, b: i64) -> (r: i64)
    requires
        b != 0,
    ensures
        r as int == fx_div_s(a as int, b as int),
{
    let neg: bool = (a < 0) != (b < 0);
    let p: u128 = (fx_abs_u64(a) as u128) * 0x1_0000_0000u128;
    let q: u128 = p / (fx_abs_u64(b) as u128);
    fx_sat_signed(neg, q)
}

/// Saturating addition.
pub fn fx_add(a: i64, b: i64) -> (r: i64)
    ensures
        r as int == fx_add_s(a as int, b as int),
{
    let s: i128 = (a as i128) + (b as i128);
    if s > FX_MAX as i128 {
        FX_MAX
    } else if s < -(FX_MAX as i128) {
        -FX_MAX
    } else {
        s as i64
    }
}

/// Saturating subtraction.
pub fn fx_sub(a: i64, b: i64) -> (r: i64)
    ensures
        r as int == fx_sub_s(a as int, b as int),
{
    let s: i128 = (a as i128) - (b as i128);
    if s > FX_MAX as i128 {
        FX_MAX
    } else if s < -(FX_MAX as i128) {
        -FX_MAX
    } else {
        s as i64
    }
}

/// Clamp into an interval.
pub fn fx_clamp(x: i64, lo: i64, hi: i64) -> (r: i64)
    requires
        lo <= hi,
    ensures
        r as int == fx_clamp_s(x as int, lo as int, hi as int),
{
    if x < lo { lo } else if x > hi { hi } else { x }
}

/// Division of a nonnegative value by a positive divisor.
pub fn fx_div_pos(a: i64, d: i64) -> (r: i64)
    requires
        a >= 0,
        d > 0,
    ensures
        r as int == a as int / d as int,
        0 <= r <= a,
{
    let q: u64 = (a as u64) / (d as u64);
    q as i64
}

/// Integer square root of a bounded u128 value by bisection.
fn sqrt_u128(v: u128) -> (r: u128)
    requires
        (v as int) < 0x40000000000000000000000000000000,
    ensures
        is_sqrt(v as int, r as int),
        r as int == sqrt_s(v as int),
{
    let mut lo: u128 = 0;
    let mut hi: u128 = 0x8000_0000_0000_0000u128;
    proof {
        assert((v as int) < (hi as int) * (hi as int)) by (nonlinear_arith)
            requires (v as int) < 0x40000000000000000000000000000000, hi == 0x8000_0000_0000_0000u128;
    }
    while lo + 1 < hi
        invariant
            lo < hi,
            hi <= 0x8000_0000_0000_0000u128,
            (lo as int) * (lo as int) <= v as int,
            (v as int) < (hi as int) * (hi as int),
        decreases hi - lo,
    {
        let mid: u128 = lo + (hi - lo) / 2;
        proof {
            assert((mid as int) * (mid as int) < 0x100000000000000000000000000000000) by (nonlinear_arith)
                requires mid < 0x1_0000_0000_0000_0000u128;
        }
        if mid * mid <= v {
            lo = mid;
        } else {
            hi = mid;
        }
    }
    proof {
        lemma_sqrt_unique(v as int, lo as int);
    }
    lo
}

/// Fixed-point square root of a nonnegative fixed-point value.
pub fn fx_sqrt(a: i64) -> (r: i64)
    requires
        a >= 0,
    ensures
        r as int == fx_sqrt_s(a as int),
        is_sqrt(a as int * (FX_ONE as int), r as int),
        r >= 0,
{
    let v: u128 = (a as u128) * 0x1_0000_0000u128;
    let r: u128 = sqrt_u128(v);
    proof {
        assert((r as int) * (r as int) <= v as int);
        assert(r as int <= 0xffff_ffff_ffff) by (nonlinear_arith)
            requires
                (r as int) * (r as int) <= v as int,
                v as int <= 0x7fff_ffff_ffff_ffff * 0x1_0000_0000,
                r >= 0;
    }
    r as i64
}

/// Euclidean length of a fixed-point coordinate pair, saturated.
pub fn fx_radius(x: i64, y: i64) -> (r: i64)
    ensures
        r as int == sat64(sqrt_s((x as int) * (x as int) + (y as int) * (y as int))),
        r >= 0,
{
    let ax: u128 = fx_abs_u64(x) as u128;
    let ay: u128 = fx_abs_u64(y) as u128;
    proof {
        assert(ax * ax <= 0x8000_0000_0000_0000u128 * 0x8000_0000_0000_0000u128
            && ay * ay <= 0x8000_0000_0000_0000u128 * 0x8000_0000_0000_0000u128
            && (ax as int) * (ax as int) == (x as int) * (x as int)
            && (ay as int) * (ay as int) == (y as int) * (y as int)) by (nonlinear_arith)
            requires
                ax <= 0x8000_0000_0000_0000u128,
                ay <= 0x8000_0000_0000_0000u128,
                ax as int == fx_abs_int(x as int),
                ay as int == fx_abs_int(y as int);
    }
    let xx: u128 = ax * ax;
    let yy: u128 = ay * ay;
    let s: u128 = xx + yy;
    let ghost exact: int = (x as int) * (x as int) + (y as int) * (y as int);
    let cap: u128 = 0x3fffffffffffffffffffffffffffffffu128;
    let v: u128 = if s > cap { cap } else { s };
    let r: u128 = sqrt_u128(v);
    proof {
        assert(r as int <= FX_MAX as int) by (nonlinear_arith)
            requires
                (r as int) * (r as int) <= v as int,
                v as int <= 0x3fffffffffffffffffffffffffffffff,
                r >= 0;
        if s > cap {
            // The true root is at least 2^63, so the saturated result is
            // exactly the capped root, which is FX_MAX.
            assert(is_sqrt(0x3fffffffffffffffffffffffffffffff, 0x7fff_ffff_ffff_ffff)) by (nonlinear_arith);
            lemma_sqrt_unique(cap as int, FX_MAX as int);
            lemma_sqrt_witness(exact);
            let rt = sqrt_s(exact);
            assert(is_sqrt(exact, rt));
            assert(rt > FX_MAX as int) by (nonlinear_arith)
                requires
                    exact > 0x3fffffffffffffffffffffffffffffff,
                    is_sqrt(exact, rt);
        } else {
            lemma_sqrt_unique(exact, r as int);
        }
    }
    r as i64
}

/// A product with one factor at most one stays below the other factor's
/// bound.
pub proof fn lemma_fx_mul_unit_bound(a: int, b: int, bm: int)
    requires
        0 <= a <= FX_ONE as int,
        0 <= b <= bm,
        bm <= FX_MAX as int,
    ensures
        0 <= fx_mul_s(a, b) <= bm,
{
    let one = FX_ONE as int;
    assert(a * b <= one * bm) by (nonlinear_arith)
        requires 0 <= a <= one, 0 <= b <= bm;
    assert(a * b >= 0) by (nonlinear_arith)
        requires a >= 0, b >= 0;
    vstd::arithmetic::div_mod::lemma_div_is_ordered(a * b, one * bm, one);
    vstd::arithmetic::div_mod::lemma_div_multiples_vanish(bm, one);
}

/// A square root is bounded by any bound on the squared value.
pub proof fn lemma_sqrt_le(v: int, r: int, b: int)
    requires
        is_sqrt(v, r),
        v <= b * b,
        b >= 0,
    ensures
        r <= b,
{
    if r > b {
        assert(false) by (nonlinear_arith)
            requires
                r * r <= v,
                v <= b * b,
                b >= 0,
                b + 1 <= r;
    }
}

/// A square root is at least any value whose square is below the radicand.
pub proof fn lemma_sqrt_ge(v: int, r: int, b: int)
    requires
        is_sqrt(v, r),
        b * b <= v,
        b >= 0,
    ensures
        r >= b,
{
    if r < b {
        assert(false) by (nonlinear_arith)
            requires
                v < (r + 1) * (r + 1),
                b * b <= v,
                b >= 0,
                r >= 0,
                r + 1 <= b;
    }
}

/// The product of two nonnegative factors is nonnegative.
pub proof fn lemma_fx_mul_nonneg(a: int, b: int)
    requires
        a >= 0,
        b >= 0,
    ensures
        fx_mul_s(a, b) >= 0,
{
    assert(a * b >= 0) by (nonlinear_arith)
        requires a >= 0, b >= 0;
    vstd::arithmetic::div_mod::lemma_div_pos_is_pos(a * b, FX_ONE as int);
}

/// The quotient of a nonnegative value by a positive one is nonnegative.
pub proof fn lemma_fx_div_nonneg(a: int, b: int)
    requires
        a >= 0,
        b > 0,
    ensures
        fx_div_s(a, b) >= 0,
{
    vstd::arithmetic::div_mod::lemma_div_pos_is_pos(a * (FX_ONE as int), b);
}

/// A quotient with numerator magnitude at most the denominator's stays
/// within one.
pub proof fn lemma_fx_div_unit(a: int, b: int)
    requires
        fx_abs_int(a) <= fx_abs_int(b),
        b != 0,
    ensures
        -(FX_ONE as int) <= fx_div_s(a, b) <= FX_ONE as int,
{
    let one = FX_ONE as int;
    let na = fx_abs_int(a);
    let nb = fx_abs_int(b);
    vstd::arithmetic::div_mod::lemma_div_pos_is_pos(na * one, nb);
    vstd::arithmetic::div_mod::lemma_div_is_ordered(na * one, nb * one, nb);
    vstd::arithmetic::div_mod::lemma_div_multiples_vanish(one, nb);
}

/// A product of two factors within one stays within one.
pub proof fn lemma_fx_mul_unit_unit(a: int, b: int)
    requires
        fx_abs_int(a) <= FX_ONE as int,
        fx_abs_int(b) <= FX_ONE as int,
    ensures
        -(FX_ONE as int) <= fx_mul_s(a, b) <= FX_ONE as int,
{
    let one = FX_ONE as int;
    let na = fx_abs_int(a);
    let nb = fx_abs_int(b);
    assert(na * nb <= one * one) by (nonlinear_arith)
        requires 0 <= na <= one, 0 <= nb <= one;
    assert(na * nb >= 0) by (nonlinear_arith)
        requires na >= 0, nb >= 0;
    vstd::arithmetic::div_mod::lemma_div_pos_is_pos(na * nb, one);
    vstd::arithmetic::div_mod::lemma_div_is_ordered(na * nb, one * one, one);
    vstd::arithmetic::div_mod::lemma_div_multiples_vanish(one, one);
}

/// A fixed-point square of a factor within one lies in [0, 1].
pub proof fn lemma_fx_square_unit(a: int)
    requires
        fx_abs_int(a) <= FX_ONE as int,
    ensures
        0 <= fx_mul_s(a, a) <= FX_ONE as int,
{
    let one = FX_ONE as int;
    let na = fx_abs_int(a);
    assert(na * na <= one * one) by (nonlinear_arith)
        requires 0 <= na <= one;
    assert(na * na >= 0) by (nonlinear_arith)
        requires na >= 0;
    vstd::arithmetic::div_mod::lemma_div_pos_is_pos(na * na, one);
    vstd::arithmetic::div_mod::lemma_div_is_ordered(na * na, one * one, one);
    vstd::arithmetic::div_mod::lemma_div_multiples_vanish(one, one);
}

/// Squares in fixed point are monotone in the magnitude.
pub proof fn lemma_fx_square_mono(a: int, b: int)
    requires
        0 <= a <= b,
    ensures
        0 <= fx_mul_s(a, a) <= fx_mul_s(b, b),
{
    let one = FX_ONE as int;
    assert(a * a <= b * b) by (nonlinear_arith)
        requires 0 <= a <= b;
    assert(a * a >= 0) by (nonlinear_arith)
        requires a >= 0;
    vstd::arithmetic::div_mod::lemma_div_pos_is_pos(a * a, one);
    vstd::arithmetic::div_mod::lemma_div_is_ordered(a * a, b * b, one);
}

/// A flattened two-dimensional grid index stays inside the grid.
pub proof fn lemma_grid_index(i: int, j: int, ni: int, nj: int)
    requires
        0 <= i < ni,
        0 <= j < nj,
    ensures
        0 <= i * nj + j < ni * nj,
{
    assert(i * nj + j < ni * nj) by (nonlinear_arith)
        requires 0 <= i < ni, 0 <= j < nj;
    assert(i * nj >= 0) by (nonlinear_arith)
        requires i >= 0, nj > 0;
}

/// Fixed-point multiplication is commutative.
pub proof fn lemma_fx_mul_comm(a: int, b: int)
    ensures
        fx_mul_s(a, b) == fx_mul_s(b, a),
{
    assert(fx_abs_int(a) * fx_abs_int(b) == fx_abs_int(b) * fx_abs_int(a)) by (nonlinear_arith);
}

/// A square-root witness for any nonnegative value, for existence proofs.
pub closed spec fn sqrt_witness(v: int) -> int
    decreases v,
{
    if v <= 0 {
        0
    } else {
        let p = sqrt_witness(v - 1);
        if (p + 1) * (p + 1) <= v { p + 1 } else { p }
    }
}

pub proof fn lemma_sqrt_witness(v: int)
    requires
        v >= 0,
    ensures
        is_sqrt(v, sqrt_witness(v)),
    decreases v,
{
    if v == 0 {
        assert(is_sqrt(0, 0)) by (nonlinear_arith);
    } else {
        lemma_sqrt_witness(v - 1);
        let p = sqrt_witness(v - 1);
        if (p + 1) * (p + 1) <= v {
            assert(is_sqrt(v, p + 1)) by (nonlinear_arith)
                requires
                    is_sqrt(v - 1, p),
                    (p + 1) * (p + 1) <= v;
        } else {
            assert(is_sqrt(v, p)) by (nonlinear_arith)
                requires
                    is_sqrt(v - 1, p),
                    (p + 1) * (p + 1) > v;
        }
    }
}

} // verus!
