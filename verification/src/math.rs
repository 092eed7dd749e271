//! Fixed-point scalar arithmetic: scaled integers, truncating division,
//! saturation, and an exact integer square root.

use vstd::prelude::*;
use vstd::arithmetic::div_mod::{lemma_fundamental_div_mod, lemma_mod_division_less_than_divisor};

verus! {

/// Number of raw units per world unit: every length, velocity, force and
/// coefficient in the simulation is an integer holding `SCALE` times its
/// world-space value.
pub const SCALE: i64 = 1_000_000;

/// Largest magnitude a stored coordinate, velocity component or simulation
/// parameter may take, in raw units.
pub const LIMIT: i64 = 1_000_000_000_000;

/// Magnitude bound under which the 128-bit intermediate products of the
/// solver are computed; all requires clauses of the helpers below stay
/// strictly under it.
pub const PROD_LIMIT: i128 = 85_070_591_730_234_615_865_843_651_857_942_052_864;

pub open spec fn iabs(a: int) -> int {
    if a >= 0 {
        a
    } else {
        -a
    }
}

/// Division truncating toward zero, the behaviour of dividing magnitudes
/// and reapplying the sign; agrees with Euclidean division on non-negative
/// dividends.
pub open spec fn tdiv(a: int, b: int) -> int
    recommends
        b >= 1,
{
    if a >= 0 {
        a / b
    } else {
        -((-a) / b)
    }
}

/// Saturate a value into the representable coordinate range.
pub open spec fn saturate(x: int) -> i64 {
    if x < -(LIMIT as int) {
        (-(LIMIT as int)) as i64
    } else if x > LIMIT as int {
        LIMIT
    } else {
        x as i64
    }
}

/// The integer square root (floor of the real square root), defined by the
/// classical recurrence on `n / 4`.
pub open spec fn sqrt_floor(n: nat) -> nat
    decreases n,
{
    if n == 0 {
        0
    } else {
        let r = sqrt_floor(n / 4);
        if (2 * r + 1) * (2 * r + 1) <= n {
            2 * r + 1
        } else {
            2 * r
        }
    }
}

/// `sqrt_floor(n)` really is the floor of the square root of `n`.
pub proof fn lemma_sqrt_floor_bounds(n: nat)
    ensures
        sqrt_floor(n) * sqrt_floor(n) <= n,
        n < (sqrt_floor(n) + 1) * (sqrt_floor(n) + 1),
    decreases n,
{
    if n == 0 {
        assert(sqrt_floor(n) == 0);
        assert(sqrt_floor(n) * sqrt_floor(n) <= n) by (nonlinear_arith)
            requires
                sqrt_floor(n) == 0,
                n == 0,
        ;
        assert(n < (sqrt_floor(n) + 1) * (sqrt_floor(n) + 1)) by (nonlinear_arith)
            requires
                sqrt_floor(n) == 0,
                n == 0,
        ;
    } else {
        let m = n / 4;
        lemma_sqrt_floor_bounds(m);
        let r = sqrt_floor(m);
        lemma_fundamental_div_mod(n as int, 4);
        lemma_mod_division_less_than_divisor(n as int, 4);
        assert(4 * m <= n < 4 * (m + 1));
        assert((2 * r) * (2 * r) == 4 * (r * r)) by (nonlinear_arith);
        assert((2 * r + 2) * (2 * r + 2) == 4 * ((r + 1) * (r + 1))) by (nonlinear_arith);
        assert(4 * (r * r) <= 4 * m) by (nonlinear_arith)
            requires
                r * r <= m,
        ;
        assert(4 * m + 4 <= 4 * ((r + 1) * (r + 1))) by (nonlinear_arith)
            requires
                m < (r + 1) * (r + 1),
        ;
        let s = sqrt_floor(n);
        if (2 * r + 1) * (2 * r + 1) <= n {
            assert(s == 2 * r + 1);
            assert(s * s <= n);
            assert(n < (s + 1) * (s + 1));
        } else {
            assert(s == 2 * r);
            assert(s * s <= n);
            assert(n < (s + 1) * (s + 1));
        }
    }
}

/// A value whose square brackets `n` is the integer square root of `n`.
pub proof fn lemma_sqrt_floor_unique(n: nat, r: nat)
    requires
        r * r <= n,
        n < (r + 1) * (r + 1),
    ensures
        r == sqrt_floor(n),
{
    lemma_sqrt_floor_bounds(n);
    let s = sqrt_floor(n);
    if r < s {
        assert((r + 1) * (r + 1) <= s * s) by (nonlinear_arith)
            requires
                r + 1 <= s,
        ;
    }
    if s < r {
        assert((s + 1) * (s + 1) <= r * r) by (nonlinear_arith)
            requires
                s + 1 <= r,
        ;
    }
}

/// The integer square root of a perfect square.
pub proof fn lemma_sqrt_of_square(s: int)
    requires
        s >= 0,
    ensures
        sqrt_floor((s * s) as nat) == s,
{
    assert(s * s < (s + 1) * (s + 1)) by (nonlinear_arith)
        requires
            s >= 0,
    ;
    lemma_sqrt_floor_unique((s * s) as nat, s as nat);
}

/// Doubling a value quadruples its square.
pub proof fn lemma_sqrt_of_four_squares(s: int)
    requires
        s >= 0,
    ensures
        sqrt_floor((4 * (s * s)) as nat) == 2 * s,
{
    assert((2 * s) * (2 * s) == 4 * (s * s)) by (nonlinear_arith);
    assert(4 * (s * s) < (2 * s + 1) * (2 * s + 1)) by (nonlinear_arith)
        requires
            s >= 0,
    ;
    lemma_sqrt_floor_unique((4 * (s * s)) as nat, (2 * s) as nat);
}

/// Magnitudes multiply: the magnitude of a product is the product of the
/// magnitudes, so bounds on factors bound the product.
pub proof fn lemma_abs_mul(a: int, b: int)
    ensures
        iabs(a * b) == iabs(a) * iabs(b),
{
    assert(iabs(a * b) == iabs(a) * iabs(b)) by (nonlinear_arith);
}

/// Bounds on two factors bound their product's magnitude.
pub proof fn lemma_abs_mul_le(a: int, b: int, ma: int, mb: int)
    requires
        iabs(a) <= ma,
        iabs(b) <= mb,
    ensures
        iabs(a * b) <= ma * mb,
{
    lemma_abs_mul(a, b);
    assert(iabs(a) * iabs(b) <= ma * mb) by (nonlinear_arith)
        requires
            0 <= iabs(a) <= ma,
            0 <= iabs(b) <= mb,
    ;
}

/// A quotient whose magnitude times the divisor stays under `m` times the
/// divisor is itself under `m`.
pub proof fn lemma_quotient_bound(q: int, a: int, c: int, m: int)
    requires
        c >= 1,
        iabs(q) * c <= iabs(a),
        iabs(a) <= m * c,
    ensures
        iabs(q) <= m,
{
    assert(iabs(q) <= m) by (nonlinear_arith)
        requires
            c >= 1,
            iabs(q) * c <= iabs(a),
            iabs(a) <= m * c,
            iabs(q) >= 0,
    ;
}

/// Squaring forgets the sign.
pub proof fn lemma_abs_square(x: int)
    ensures
        iabs(x) * iabs(x) == x * x,
{
    if x < 0 {
        assert((-x) * (-x) == x * x) by (nonlinear_arith);
    }
}

/// A quotient by a positive divisor is no larger in magnitude than the
/// dividend.
pub proof fn lemma_quotient_abs_le(q: int, a: int, c: int)
    requires
        c >= 1,
        iabs(q) * c <= iabs(a),
    ensures
        iabs(q) <= iabs(a),
{
    assert(iabs(q) <= iabs(a)) by (nonlinear_arith)
        requires
            c >= 1,
            iabs(q) * c <= iabs(a),
            iabs(q) >= 0,
    ;
}

/// A component of a vector is no longer than the integer length of the
/// vector: its square is bounded by the squared norm.
pub proof fn lemma_component_le_norm(a: int, q: int, len: int)
    requires
        a * a <= q,
        len >= 0,
        q < (len + 1) * (len + 1),
    ensures
        iabs(a) <= len,
{
    assert(iabs(a) <= len) by (nonlinear_arith)
        requires
            a * a <= q,
            len >= 0,
            q < (len + 1) * (len + 1),
    ;
}

/// Exec magnitude of a 128-bit value.
fn abs_u128(a: i128) -> (r: u128)
    requires
        a != i128::MIN,
    ensures
        r as int == iabs(a as int),
{
    if a >= 0 {
        a as u128
    } else {
        (-a) as u128
    }
}

/// Exec division truncating toward zero.
pub fn div_trunc(a: i128, b: i128) -> (q: i128)
    requires
        b >= 1,
        a != i128::MIN,
    ensures
        q as int == tdiv(a as int, b as int),
        iabs(q as int) * (b as int) <= iabs(a as int),
{
    let am: u128 = abs_u128(a);
    let bu: u128 = b as u128;
    let qu: u128 = am / bu;
    proof {
        lemma_fundamental_div_mod(am as int, bu as int);
        lemma_mod_division_less_than_divisor(am as int, bu as int);
        assert(qu as int * (b as int) <= am as int) by (nonlinear_arith)
            requires
                am as int == (bu as int) * (qu as int) + (am as int) % (bu as int),
                (am as int) % (bu as int) >= 0,
                bu == b,
        ;
    }
    let qi: i128 = qu as i128;
    if a < 0 {
        -qi
    } else {
        qi
    }
}

/// Exec multiply-then-divide with truncation toward zero, the workhorse of
/// every fixed-point product in the solver.
pub fn mul_div(a: i128, b: i128, c: i128) -> (r: i128)
    requires
        c >= 1,
        iabs(a as int) < PROD_LIMIT as int,
        iabs(b as int) < PROD_LIMIT as int,
        iabs((a as int) * (b as int)) < PROD_LIMIT as int,
    ensures
        r as int == tdiv((a as int) * (b as int), c as int),
        iabs(r as int) * (c as int) <= iabs((a as int) * (b as int)),
{
    proof {
        lemma_abs_mul(a as int, b as int);
    }
    let am: u128 = abs_u128(a);
    let bm: u128 = abs_u128(b);
    let p: u128 = am * bm;
    let qu: u128 = p / (c as u128);
    proof {
        lemma_fundamental_div_mod(p as int, c as int);
        lemma_mod_division_less_than_divisor(p as int, c as int);
        assert(qu as int * (c as int) <= p as int) by (nonlinear_arith)
            requires
                p as int == (c as int) * (qu as int) + (p as int) % (c as int),
                (p as int) % (c as int) >= 0,
        ;
    }
    let qi: i128 = qu as i128;
    proof {
        let ab = (a as int) * (b as int);
        if (a as int) >= 0 && (b as int) >= 0 {
            assert((a as int) * (b as int) >= 0) by (nonlinear_arith)
                requires
                    (a as int) >= 0,
                    (b as int) >= 0,
            ;
        } else if (a as int) < 0 && (b as int) < 0 {
            assert((a as int) * (b as int) >= 0) by (nonlinear_arith)
                requires
                    (a as int) < 0,
                    (b as int) < 0,
            ;
        } else if (a as int) >= 0 {
            assert((a as int) * (b as int) <= 0) by (nonlinear_arith)
                requires
                    (a as int) >= 0,
                    (b as int) < 0,
            ;
        } else {
            assert((a as int) * (b as int) <= 0) by (nonlinear_arith)
                requires
                    (a as int) < 0,
                    (b as int) >= 0,
            ;
        }
        assert(p as int == iabs(ab));
        if ab >= 0 {
            assert(tdiv(ab, c as int) == ab / (c as int));
            assert(qu as int == ab / (c as int));
            if ab == 0 {
                assert(qu as int * (c as int) <= 0);
                assert(qu == 0) by (nonlinear_arith)
                    requires
                        qu as int * (c as int) <= 0,
                        c as int >= 1,
                ;
            }
        } else {
            assert(tdiv(ab, c as int) == -((-ab) / (c as int)));
            assert(qu as int == (-ab) / (c as int));
        }
    }
    if (a < 0) != (b < 0) {
        -qi
    } else {
        qi
    }
}

/// Exec saturation into the coordinate range.
pub fn saturate_i128(x: i128) -> (r: i64)
    ensures
        r == saturate(x as int),
{
    if x < -(LIMIT as i128) {
        -LIMIT
    } else if x > LIMIT as i128 {
        LIMIT
    } else {
        x as i64
    }
}

/// Exec integer square root for the squared norms the solver produces.
pub fn isqrt(n: u128) -> (r: u128)
    requires
        n < 1_267_650_600_228_229_401_496_703_205_376,  // 2^100
    ensures
        r == sqrt_floor(n as nat),
        r * r <= n,
        n < (r + 1) * (r + 1),
{
    let mut lo: u128 = 0;
    let mut hi: u128 = 1_125_899_906_842_624;  // 2^50
    proof {
        assert((hi as int) * (hi as int) == 1_267_650_600_228_229_401_496_703_205_376int)
            by (nonlinear_arith)
            requires
                hi == 1_125_899_906_842_624u128,
        ;
    }
    while hi - lo > 1
        invariant
            lo < hi,
            hi <= 1_125_899_906_842_624,
            (lo as int) * (lo as int) <= n as int,
            (n as int) < (hi as int) * (hi as int),
        decreases hi - lo,
    {
        let mid: u128 = lo + (hi - lo) / 2;
        proof {
            assert((mid as int) * (mid as int) < 340_282_366_920_938_463_463_374_607_431_768_211_455int)
                by (nonlinear_arith)
                requires
                    mid < 1_125_899_906_842_624u128,
            ;
        }
        if mid * mid <= n {
            lo = mid;
        } else {
            hi = mid;
        }
    }
    proof {
        lemma_sqrt_floor_unique(n as nat, lo as nat);
    }
    lo
}

} // verus!
