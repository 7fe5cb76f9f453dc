//! Fixed-point scalars and small exact arithmetic helpers.
//!
//! Every scalar the simulation works with — world coordinates, speeds,
//! angles, script inputs — is an `i64` counted in subunits of `FP_SCALE`
//! per unit. Angles are counted in subunits of `FP_SCALE` per degree, so a
//! full turn is `FULL_TURN` subunits. Because the representation is integral,
//! every kinematic formula below has an exact mathematical statement.

use vstd::prelude::*;

verus! {

use vstd::arithmetic::div_mod::lemma_fundamental_div_mod;
use vstd::arithmetic::div_mod::lemma_fundamental_div_mod_converse_mod;
use vstd::arithmetic::div_mod::lemma_div_is_ordered;
use vstd::arithmetic::div_mod::lemma_div_nonincreasing;
use vstd::arithmetic::div_mod::lemma_basic_div;
use vstd::arithmetic::div_mod::lemma_div_pos_is_pos;
use vstd::arithmetic::div_mod::lemma_div_of0;
use vstd::arithmetic::div_mod::lemma_div_multiples_vanish;
use vstd::arithmetic::mul::lemma_mul_inequality;
use vstd::math::abs;

/// Subunits per world unit, per degree, and per unit of script input.
///
/// The value is divisible by every tick rate the simulation is run at, so
/// the per-tick shares of whole-unit quantities stay exact.
pub const FP_SCALE: i64 = 3600;

/// Subunits in a full turn of 360 degrees.
pub const FULL_TURN: i64 = 360 * 3600;

/// Largest magnitude accepted for kinematic parameters, speeds and script
/// inputs. Keeping these within 2^31 subunits lets every product taken
/// below fit comfortably in 64 bits.
pub const PARAM_LIMIT: i64 = 0x8000_0000;

/// A 2D vector of fixed-point scalars.
#[derive(Clone, Copy, PartialEq, Eq, Structural, Debug)]
pub struct Fx2 {
    pub x: i64,
    pub y: i64,
}

impl Fx2 {
    pub open spec fn is_zero(self) -> bool {
        self.x == 0 && self.y == 0
    }

    pub fn zero() -> (r: Fx2)
        ensures
            r.x == 0 && r.y == 0,
    {
        Fx2 { x: 0, y: 0 }
    }

    /// Squared length, in squared subunits.
    pub open spec fn norm_sq(self) -> int {
        self.x * self.x + self.y * self.y
    }
}

/// `v` held into `[lo, hi]`.
pub open spec fn clamped(v: int, lo: int, hi: int) -> int {
    if v < lo {
        lo
    } else if v > hi {
        hi
    } else {
        v
    }
}

pub fn clamp_i64(v: i64, lo: i64, hi: i64) -> (r: i64)
    requires
        lo <= hi,
    ensures
        r == clamped(v as int, lo as int, hi as int),
{
    if v < lo {
        lo
    } else if v > hi {
        hi
    } else {
        v
    }
}

/// `a * b / d` with the quotient truncated toward zero, the rounding the
/// simulation uses for every per-tick share of a product.
pub open spec fn mul_div_trunc(a: int, b: int, d: int) -> int {
    if a * b >= 0 {
        (a * b) / d
    } else {
        -((-(a * b)) / d)
    }
}

pub fn mul_div(a: i64, b: i64, d: i64) -> (r: i64)
    requires
        0 < d,
        -PARAM_LIMIT <= a <= PARAM_LIMIT,
        -PARAM_LIMIT <= b <= PARAM_LIMIT,
    ensures
        r == mul_div_trunc(a as int, b as int, d as int),
        abs(b as int) <= d ==> abs(r as int) <= abs(a as int),
        abs(a as int) <= d ==> abs(r as int) <= abs(b as int),
        b == 0 ==> r == 0,
        a == 0 ==> r == 0,
{
    let ua: u64 = if a < 0 {
        (-a) as u64
    } else {
        a as u64
    };
    let ub: u64 = if b < 0 {
        (-b) as u64
    } else {
        b as u64
    };
    let ud: u64 = d as u64;
    proof {
        assert(ua as int * ub as int <= 0x8000_0000 * 0x8000_0000) by (nonlinear_arith)
            requires
                0 <= ua <= 0x8000_0000,
                0 <= ub <= 0x8000_0000,
        ;
    }
    let p: u64 = ua * ub;
    let q: u64 = p / ud;
    proof {
        let ai = a as int;
        let bi = b as int;
        let di = d as int;
        let pi = p as int;
        // the magnitude product is the magnitude of the product
        if a >= 0 && b >= 0 {
            assert(pi == ai * bi);
        } else if a < 0 && b < 0 {
            assert(pi == ai * bi) by (nonlinear_arith)
                requires
                    pi == (-ai) * (-bi),
            ;
            assert(ai * bi >= 0) by (nonlinear_arith)
                requires
                    ai < 0 && bi < 0,
            ;
        } else if a < 0 {
            assert(pi == -(ai * bi)) by (nonlinear_arith)
                requires
                    pi == (-ai) * bi,
            ;
            assert(ai * bi <= 0) by (nonlinear_arith)
                requires
                    ai < 0 && bi >= 0,
            ;
        } else {
            assert(pi == -(ai * bi)) by (nonlinear_arith)
                requires
                    pi == ai * (-bi),
            ;
            assert(ai * bi <= 0) by (nonlinear_arith)
                requires
                    ai >= 0 && bi < 0,
            ;
        }
        assert(ai * bi >= 0 ==> pi == ai * bi);
        assert(ai * bi < 0 ==> pi == -(ai * bi));
        if a == 0 || b == 0 {
            assert(pi == 0) by (nonlinear_arith)
                requires
                    pi == ua as int * ub as int,
                    ua as int == 0 || ub as int == 0,
            ;
            lemma_basic_div(0, ud as int);
        }
        lemma_div_nonincreasing(pi, ud as int);
        assert(q <= p);
        // q is the quotient of the magnitudes, which settles the result
        if ai * bi >= 0 {
            assert(mul_div_trunc(ai, bi, di) == q);
        } else {
            assert(mul_div_trunc(ai, bi, di) == -(q as int));
        }
        // magnitude bounds: dividing by at least one factor's worth
        if ub as int <= di {
            lemma_mul_inequality(ub as int, ud as int, ua as int);
            assert(ub * ua == ua * ub && ud * ua == ua * ud) by (nonlinear_arith);
            lemma_div_is_ordered(pi, ua as int * ud as int, ud as int);
            lemma_div_multiples_vanish(ua as int, ud as int);
            assert(ud as int * ua as int == ua as int * ud as int) by (nonlinear_arith);
            assert(q <= ua);
        }
        if ua as int <= di {
            lemma_mul_inequality(ua as int, ud as int, ub as int);
            assert(ua * ub == ub * ua && ud * ub == ub * ud) by (nonlinear_arith);
            lemma_div_is_ordered(pi, ub as int * ud as int, ud as int);
            lemma_div_multiples_vanish(ub as int, ud as int);
            assert(ud as int * ub as int == ub as int * ud as int) by (nonlinear_arith);
            assert(q <= ub);
        }
    }
    if (a < 0) != (b < 0) {
        -(q as i64)
    } else {
        q as i64
    }
}

/// Truncation toward zero keeps the sign of the exact quotient.
pub proof fn lemma_mul_div_trunc_sign(a: int, b: int, d: int)
    requires
        0 < d,
    ensures
        a >= 0 && b >= 0 ==> mul_div_trunc(a, b, d) >= 0,
        a <= 0 && b >= 0 ==> mul_div_trunc(a, b, d) <= 0,
        a >= 0 && b <= 0 ==> mul_div_trunc(a, b, d) <= 0,
        a <= 0 && b <= 0 ==> mul_div_trunc(a, b, d) >= 0,
{
    assert(a >= 0 && b >= 0 ==> a * b >= 0) by (nonlinear_arith);
    assert(a <= 0 && b <= 0 ==> a * b >= 0) by (nonlinear_arith);
    assert(a <= 0 && b >= 0 ==> a * b <= 0) by (nonlinear_arith);
    assert(a >= 0 && b <= 0 ==> a * b <= 0) by (nonlinear_arith);
    if a * b >= 0 {
        lemma_div_pos_is_pos(a * b, d);
        assert(mul_div_trunc(a, b, d) >= 0);
        if a * b == 0 {
            lemma_div_of0(d);
            assert(mul_div_trunc(a, b, d) == 0);
        }
    } else {
        lemma_div_pos_is_pos(-(a * b), d);
        assert(mul_div_trunc(a, b, d) <= 0);
    }
}

/// Floor of the square root, the reference for the executable search below.
pub open spec fn sqrt_floor(n: nat) -> nat
    decreases n,
{
    if n == 0 {
        0
    } else {
        let p = sqrt_floor((n - 1) as nat);
        if (p + 1) * (p + 1) <= n {
            p + 1
        } else {
            p
        }
    }
}

pub proof fn lemma_sqrt_floor_bounds(n: nat)
    ensures
        sqrt_floor(n) * sqrt_floor(n) <= n,
        n < (sqrt_floor(n) + 1) * (sqrt_floor(n) + 1),
    decreases n,
{
    if n > 0 {
        lemma_sqrt_floor_bounds((n - 1) as nat);
        let p = sqrt_floor((n - 1) as nat);
        assert(p * p <= n - 1 && n - 1 < (p + 1) * (p + 1));
        if (p + 1) * (p + 1) <= n {
            assert(sqrt_floor(n) == p + 1);
            assert(n <= (p + 1) * (p + 1));
            assert((p + 1) * (p + 1) < (p + 2) * (p + 2)) by (nonlinear_arith)
                requires
                    0 <= p,
            ;
            assert(sqrt_floor(n) * sqrt_floor(n) <= n);
            assert(n < (sqrt_floor(n) + 1) * (sqrt_floor(n) + 1));
        } else {
            assert(sqrt_floor(n) == p);
            assert(n < (p + 1) * (p + 1));
            assert(sqrt_floor(n) * sqrt_floor(n) <= n);
            assert(n < (sqrt_floor(n) + 1) * (sqrt_floor(n) + 1)) by (nonlinear_arith)
                requires
                    sqrt_floor(n) == p,
                    n < (p + 1) * (p + 1),
            ;
        }
    } else {
        assert(sqrt_floor(n) == 0);
        assert(sqrt_floor(n) * sqrt_floor(n) <= n);
        assert(n < (sqrt_floor(n) + 1) * (sqrt_floor(n) + 1)) by (nonlinear_arith)
            requires
                n == 0,
                sqrt_floor(n) == 0,
        ;
    }
}

pub proof fn lemma_sqrt_floor_unique(n: nat, r: nat)
    requires
        r * r <= n,
        n < (r + 1) * (r + 1),
    ensures
        r == sqrt_floor(n),
{
    lemma_sqrt_floor_bounds(n);
    let s = sqrt_floor(n);
    if r < s {
        assert((r + 1) * (r + 1) <= s * s) by (nonlinear_arith)
            requires
                r + 1 <= s,
        ;
    }
    if s < r {
        assert((s + 1) * (s + 1) <= r * r) by (nonlinear_arith)
            requires
                s + 1 <= r,
        ;
    }
}

/// Integer square root by bisection.
pub fn isqrt(n: u64) -> (r: u64)
    ensures
        r == sqrt_floor(n as nat),
        r * r <= n < (r + 1) * (r + 1),
{
    let mut lo: u64 = 0;
    let mut hi: u64 = 0x1_0000_0000;
    proof {
        assert((0x1_0000_0000 as int) * (0x1_0000_0000 as int) > u64::MAX as int) by (nonlinear_arith);
    }
    while lo + 1 < hi
        invariant
            lo < hi <= 0x1_0000_0000,
            lo as int * lo as int <= n as int,
            (n as int) < hi as int * hi as int,
        decreases hi - lo,
    {
        let mid: u64 = lo + (hi - lo) / 2;
        proof {
            assert(mid as int * mid as int <= 0x1_0000_0000 * 0x1_0000_0000) by (nonlinear_arith)
                requires
                    0 <= mid <= 0x1_0000_0000,
            ;
        }
        if (mid as u128) * (mid as u128) <= n as u128 {
            lo = mid;
        } else {
            hi = mid;
        }
    }
    proof {
        lemma_sqrt_floor_unique(n as nat, lo as nat);
    }
    lo
}

/// The direction of `v` scaled to length `FP_SCALE` when `v` is longer than
/// one unit; `v` itself otherwise. Lengths are taken by integer square root,
/// so the clamped vector is within one truncation step of the unit circle.
pub open spec fn clamp_unit_spec(v: Fx2) -> Fx2 {
    if v.norm_sq() <= FP_SCALE * FP_SCALE {
        v
    } else {
        let l = sqrt_floor(v.norm_sq() as nat) as int;
        Fx2 {
            x: mul_div_trunc(v.x as int, FP_SCALE as int, l) as i64,
            y: mul_div_trunc(v.y as int, FP_SCALE as int, l) as i64,
        }
    }
}

/// Clamp `v` to at most one unit of length.
pub fn clamp_unit(v: Fx2) -> (r: Fx2)
    requires
        -PARAM_LIMIT <= v.x <= PARAM_LIMIT,
        -PARAM_LIMIT <= v.y <= PARAM_LIMIT,
    ensures
        r == clamp_unit_spec(v),
        abs(r.x as int) <= abs(v.x as int),
        abs(r.y as int) <= abs(v.y as int),
        abs(r.x as int) <= FP_SCALE,
        abs(r.y as int) <= FP_SCALE,
{
    let ux: u64 = if v.x < 0 {
        (-v.x) as u64
    } else {
        v.x as u64
    };
    let uy: u64 = if v.y < 0 {
        (-v.y) as u64
    } else {
        v.y as u64
    };
    proof {
        assert(ux as int * ux as int <= 0x8000_0000 * 0x8000_0000 && uy as int * uy as int
            <= 0x8000_0000 * 0x8000_0000) by (nonlinear_arith)
            requires
                0 <= ux <= 0x8000_0000,
                0 <= uy <= 0x8000_0000,
        ;
        let xi = v.x as int;
        let yi = v.y as int;
        assert(ux as int * ux as int == xi * xi) by (nonlinear_arith)
            requires
                ux as int == xi || ux as int == -xi,
        ;
        assert(uy as int * uy as int == yi * yi) by (nonlinear_arith)
            requires
                uy as int == yi || uy as int == -yi,
        ;
    }
    let nsq: u64 = ux * ux + uy * uy;
    if nsq <= (FP_SCALE * FP_SCALE) as u64 {
        proof {
            // a component longer than one unit would make the whole vector longer
            if ux > FP_SCALE {
                assert(FP_SCALE * FP_SCALE < ux as int * ux as int) by (nonlinear_arith)
                    requires
                        FP_SCALE < ux as int,
                ;
                assert(false);
            }
            if uy > FP_SCALE {
                assert(FP_SCALE * FP_SCALE < uy as int * uy as int) by (nonlinear_arith)
                    requires
                        FP_SCALE < uy as int,
                ;
                assert(false);
            }
        }
        v
    } else {
        let l64: u64 = isqrt(nsq);
        proof {
            // the root fits comfortably below 2^32
            if l64 > 0xFFFF_FFFF {
                assert(u64::MAX < l64 as int * l64 as int) by (nonlinear_arith)
                    requires
                        0x1_0000_0000 <= l64 as int,
                ;
                assert(false);
            }
            // nsq exceeds FP_SCALE^2, so the root is at least FP_SCALE
            if l64 < FP_SCALE {
                assert((l64 + 1) * (l64 + 1) <= FP_SCALE * FP_SCALE) by (nonlinear_arith)
                    requires
                        l64 + 1 <= FP_SCALE,
                ;
                assert(false);
            }
            // each component is at most the root
            if ux > l64 {
                assert((l64 + 1) * (l64 + 1) <= ux as int * ux as int) by (nonlinear_arith)
                    requires
                        l64 + 1 <= ux,
                ;
                assert(false);
            }
            if uy > l64 {
                assert((l64 + 1) * (l64 + 1) <= uy as int * uy as int) by (nonlinear_arith)
                    requires
                        l64 + 1 <= uy,
                ;
                assert(false);
            }
        }
        let l: i64 = l64 as i64;
        Fx2 { x: mul_div(v.x, FP_SCALE, l), y: mul_div(v.y, FP_SCALE, l) }
    }
}

/// An angle reduced into `[0, FULL_TURN)`, by Euclidean remainder.
pub open spec fn wrapped_turn(a: int) -> int {
    a % (FULL_TURN as int)
}

/// Reduce an accumulated angle into `[0, FULL_TURN)`.
pub fn wrap_angle(a: i64) -> (r: i64)
    requires
        i64::MIN < a,
    ensures
        r == wrapped_turn(a as int),
        0 <= r < FULL_TURN,
{
    let t: u64 = FULL_TURN as u64;
    if a >= 0 {
        let m: u64 = (a as u64) % t;
        proof {
            lemma_fundamental_div_mod(a as int, t as int);
            lemma_fundamental_div_mod_converse_mod(
                a as int,
                FULL_TURN as int,
                ((a as u64) / t) as int,
                m as int,
            );
        }
        m as i64
    } else {
        let m: u64 = ((-a) as u64) % t;
        proof {
            let q = ((-a) as u64 / t) as int;
            lemma_fundamental_div_mod((-a) as int, t as int);
            assert((-a) as int == t as int * q + m as int);
            if m == 0 {
                assert(a as int == FULL_TURN as int * (-q) + 0) by (nonlinear_arith)
                    requires
                        (-a) as int == FULL_TURN as int * q + 0,
                ;
                lemma_fundamental_div_mod_converse_mod(a as int, FULL_TURN as int, -q, 0);
            } else {
                assert(a as int == FULL_TURN as int * (-q - 1) + (FULL_TURN - m)) by (nonlinear_arith)
                    requires
                        (-a) as int == FULL_TURN as int * q + m as int,
                ;
                lemma_fundamental_div_mod_converse_mod(
                    a as int,
                    FULL_TURN as int,
                    -q - 1,
                    FULL_TURN - m,
                );
            }
        }
        if m == 0 {
            0
        } else {
            (t - m) as i64
        }
    }
}

} // verus!
