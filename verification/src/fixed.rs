//! Fixed-point numbers.
//!
//! Every length and coordinate is a signed count of ticks. One canvas unit,
//! and one screen pixel, is [`UNIT`] ticks. Coordinates live in the closed
//! range `-COORD_MAX ..= COORD_MAX`; every operation that produces a
//! coordinate saturates it to that range. Division always rounds toward
//! negative infinity.

use vstd::arithmetic::div_mod::*;
use vstd::prelude::*;

verus! {

/// Ticks per canvas unit and per screen pixel.
pub const UNIT: i64 = 1_000_000;

/// Largest magnitude of a coordinate, in ticks.
pub const COORD_MAX: i64 = 100_000_000_000_000;

/// Whether `v` lies in the coordinate range.
pub open spec fn in_canvas(v: int) -> bool {
    -COORD_MAX <= v <= COORD_MAX
}

/// `v` moved to the nearest value of the coordinate range.
pub open spec fn clamp_coord(v: int) -> int {
    if v < -COORD_MAX {
        -(COORD_MAX as int)
    } else if v > COORD_MAX {
        COORD_MAX as int
    } else {
        v
    }
}

/// Saturates a wide intermediate result to the coordinate range.
pub fn saturate(v: i128) -> (r: i64)
    ensures
        r == clamp_coord(v as int),
{
    if v < -(COORD_MAX as i128) {
        -COORD_MAX
    } else if v > COORD_MAX as i128 {
        COORD_MAX
    } else {
        v as i64
    }
}

/// Division rounding toward negative infinity.
pub fn floor_div(a: i128, b: i128) -> (q: i128)
    requires
        b > 0,
    ensures
        q == (a as int) / (b as int),
{
    let t: i128 = a / b;
    let m: i128 = a % b;
    if a >= 0 || m == 0 {
        proof {
            if a < 0 {
                let n: int = -(a as int);
                lemma_fundamental_div_mod(n, b as int);
                assert(a as int == (b as int) * (t as int)) by (nonlinear_arith)
                    requires
                        n == (b as int) * (n / (b as int)) + n % (b as int),
                        n % (b as int) == 0,
                        t as int == -(n / (b as int)),
                        a as int == -n,
                ;
                lemma_fundamental_div_mod_converse(a as int, b as int, t as int, 0);
            }
        }
        t
    } else {
        proof {
            let n: int = -(a as int);
            lemma_fundamental_div_mod(n, b as int);
            lemma_mod_bound(n, b as int);
            assert(a as int == (b as int) * (t as int - 1) + (b as int + m as int))
                by (nonlinear_arith)
                requires
                    n == (b as int) * (n / (b as int)) + n % (b as int),
                    m as int == -(n % (b as int)),
                    t as int == -(n / (b as int)),
                    a as int == -n,
            ;
            lemma_fundamental_div_mod_converse(
                a as int,
                b as int,
                t as int - 1,
                b as int + m as int,
            );
            let bi: int = b as int;
            let ri: int = b as int + m as int;
            let qi: int = t as int - 1;
            assert(qi >= i128::MIN) by (nonlinear_arith)
                requires
                    a as int == bi * qi + ri,
                    0 < ri,
                    ri < bi,
                    a as int >= i128::MIN,
            ;
        }
        t - 1
    }
}

/// `r` is the integer square root of `n`: the largest `r` with `r * r <= n`.
pub open spec fn is_sqrt_of(r: nat, n: nat) -> bool {
    r * r <= n < (r + 1) * (r + 1)
}

/// The integer square root of `n`.
pub open spec fn isqrt(n: nat) -> nat {
    choose|r: nat| is_sqrt_of(r, n)
}

/// At most one number is the integer square root of `n`.
pub proof fn lemma_sqrt_unique(n: nat, r1: nat, r2: nat)
    requires
        is_sqrt_of(r1, n),
        is_sqrt_of(r2, n),
    ensures
        r1 == r2,
{
    if r1 < r2 {
        assert((r1 + 1) * (r1 + 1) <= r2 * r2) by (nonlinear_arith)
            requires
                r1 + 1 <= r2,
        ;
    } else if r2 < r1 {
        assert((r2 + 1) * (r2 + 1) <= r1 * r1) by (nonlinear_arith)
            requires
                r2 + 1 <= r1,
        ;
    }
}

/// Computes the integer square root by bisection.
pub fn integer_sqrt(n: u128) -> (r: u64)
    ensures
        is_sqrt_of(r as nat, n as nat),
        r == isqrt(n as nat),
{
    let mut lo: u128 = 0;
    let mut hi: u128 = 0x1_0000_0000_0000_0000;
    while hi - lo > 1
        invariant
            lo < hi <= 0x1_0000_0000_0000_0000,
            lo * lo <= n,
            n < hi * hi,
        decreases hi - lo,
    {
        let mid: u128 = lo + (hi - lo) / 2;
        assert(mid * mid <= 0xffff_ffff_ffff_ffff * 0xffff_ffff_ffff_ffff) by (nonlinear_arith)
            requires
                0 <= mid <= 0xffff_ffff_ffff_ffff,
        ;
        if mid * mid <= n {
            lo = mid;
        } else {
            hi = mid;
        }
    }
    proof {
        assert(is_sqrt_of(lo as nat, n as nat));
        lemma_sqrt_unique(n as nat, lo as nat, isqrt(n as nat));
    }
    lo as u64
}

/// The product of two bounded numbers is bounded by the product of the
/// bounds.
pub proof fn lemma_mul_range(a: int, b: int, a_max: int, b_max: int)
    by (nonlinear_arith)
    requires
        -a_max <= a <= a_max,
        -b_max <= b <= b_max,
    ensures
        -(a_max * b_max) <= a * b <= a_max * b_max,
{
}

/// A quotient by a positive divisor is bounded as the dividend is.
pub proof fn lemma_div_range(a: int, d: int, k: int)
    requires
        d > 0,
        -(k * d) <= a <= k * d,
    ensures
        -k <= a / d <= k,
{
    lemma_fundamental_div_mod(a, d);
    lemma_mod_bound(a, d);
    assert(-k <= a / d <= k) by (nonlinear_arith)
        requires
            a == d * (a / d) + a % d,
            0 <= a % d < d,
            d > 0,
            -(k * d) <= a <= k * d,
    ;
}

/// Division by a positive divisor does not take a number out of a
/// symmetric range.
pub proof fn lemma_div_shrinks(a: int, d: int, k: int)
    requires
        d > 0,
        k >= 0,
        -k <= a <= k,
    ensures
        -k <= a / d <= k,
{
    assert(-(k * d) <= a <= k * d) by (nonlinear_arith)
        requires
            d >= 1,
            k >= 0,
            -k <= a <= k,
    ;
    lemma_div_range(a, d, k);
}

} // verus!
