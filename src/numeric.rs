use vstd::prelude::*;
use vstd::arithmetic::div_mod::{lemma_fundamental_div_mod, lemma_fundamental_div_mod_converse};

verus! {

/// Floor division of `x` by a positive divisor.
pub fn floor_div(x: i128, d: i128) -> (r: i128)
    requires
        d > 0,
        x > i128::MIN,
    ensures
        r == x / d,
{
    if x >= 0 {
        x / d
    } else {
        let y: i128 = -x;
        let q = y / d;
        let m = y % d;
        proof {
            lemma_fundamental_div_mod(y as int, d as int);
            let qi = q as int;
            let di = d as int;
            assert((-qi) * di == -(di * qi)) by (nonlinear_arith);
            assert((-qi - 1) * di == -(di * qi) - di) by (nonlinear_arith);
            if m == 0 {
                lemma_fundamental_div_mod_converse(x as int, d as int, -q, 0);
            } else {
                lemma_fundamental_div_mod_converse(x as int, d as int, -q - 1, d - m);
            }
        }
        if m == 0 {
            -q
        } else {
            -q - 1
        }
    }
}

} // verus!

verus! {

/// One CSS unit of a quantity, in the library's fixed-point representation: every length, number
/// and ratio is an integer count of millionths.
pub const UNIT: i64 = 1_000_000;

/// Largest magnitude of a coefficient in a `calc()` formula.
pub const LIMIT: i64 = 1_000_000_000_000_000;

/// Largest font size or device-pixel ratio (in millionths) that a sizing context may hold.
pub const MAX_SIZING: i64 = 100_000_000_000;

/// `x` clamped into the symmetric range of `i64`.
pub open spec fn clamp_i64(x: int) -> int {
    if x > i64::MAX {
        i64::MAX as int
    } else if x < -i64::MAX {
        -i64::MAX
    } else {
        x
    }
}

/// Clamps `x` into `[-i64::MAX, i64::MAX]`.
pub fn saturate(x: i128) -> (r: i64)
    ensures
        r == clamp_i64(x as int),
{
    if x > i64::MAX as i128 {
        i64::MAX
    } else if x < -(i64::MAX as i128) {
        -i64::MAX
    } else {
        x as i64
    }
}

/// `floor(a * b / d)` for a positive `d`.
pub fn mul_div(a: i64, b: i64, d: i64) -> (r: i128)
    requires
        d > 0,
    ensures
        r == (a * b) / (d as int),
{
    proof {
        assert(a * b <= 0x4000_0000_0000_0000_0000_0000_0000_0000) by (nonlinear_arith)
            requires
                -0x8000_0000_0000_0000 <= a <= 0x7fff_ffff_ffff_ffff,
                -0x8000_0000_0000_0000 <= b <= 0x7fff_ffff_ffff_ffff,
        ;
        assert(a * b >= -0x4000_0000_0000_0000_0000_0000_0000_0000) by (nonlinear_arith)
            requires
                -0x8000_0000_0000_0000 <= a <= 0x7fff_ffff_ffff_ffff,
                -0x8000_0000_0000_0000 <= b <= 0x7fff_ffff_ffff_ffff,
        ;
    }
    floor_div(a as i128 * b as i128, d as i128)
}

} // verus!

verus! {

/// Dividing by a positive integer keeps a value within a symmetric bound.
pub proof fn lemma_div_within(x: int, m: int, d: int)
    requires
        d >= 1,
        -m <= x <= m,
    ensures
        -m <= x / d <= m,
{
    lemma_fundamental_div_mod(x, d);
    let q = x / d;
    let r = x % d;
    assert(0 <= r < d);
    assert(x == d * q + r);
    assert(-m <= q <= m) by (nonlinear_arith)
        requires
            d >= 1,
            -m <= x <= m,
            x == d * q + r,
            0 <= r < d,
    ;
}

} // verus!
