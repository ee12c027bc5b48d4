//! Integer helpers shared by the simulation core.
//!
//! All world-space arithmetic in this crate is fixed-point: positions are
//! signed subunit counts and time is an integer number of clock units. The
//! helpers here give the two operations the core needs beyond plain `+`/`*`:
//! flooring division by a positive divisor (used to map world coordinates to
//! grid cells and to scale velocities by a time slice) and clamped stepping
//! toward a target (used for acceleration and friction).

use vstd::prelude::*;
use vstd::arithmetic::div_mod::{
    lemma_fundamental_div_mod,
    lemma_fundamental_div_mod_converse_div,
    lemma_mod_bound,
};

verus! {

/// Smaller of two mathematical integers.
pub open spec fn min_i(a: int, b: int) -> int {
    if a < b {
        a
    } else {
        b
    }
}

/// Larger of two mathematical integers.
pub open spec fn max_i(a: int, b: int) -> int {
    if a < b {
        b
    } else {
        a
    }
}

/// Absolute value of a mathematical integer.
pub open spec fn abs_i(a: int) -> int {
    if a < 0 {
        -a
    } else {
        a
    }
}

/// Flooring division of `a` by a positive `b`.
///
/// For a positive divisor this agrees with mathematical (Euclidean) integer
/// division, so the postcondition is stated directly as `a / b` on `int`.
pub fn floor_div(a: i64, b: i64) -> (q: i64)
    requires
        0 < b < 0x4000_0000_0000_0000,
        -0x4000_0000_0000_0000 < a < 0x4000_0000_0000_0000,
    ensures
        q as int == a as int / b as int,
{
    if a >= 0 {
        let q = (a as u64) / (b as u64);
        q as i64
    } else {
        let na: u64 = (-a) as u64;
        let bu: u64 = b as u64;
        let m: u64 = (na + bu - 1) / bu;
        proof {
            let n = na as int;
            let d = bu as int;
            let mm = m as int;
            lemma_fundamental_div_mod(n + d - 1, d);
            // n + d - 1 == d * mm + s with 0 <= s < d, hence the remainder of
            // -n against d under quotient -mm is d - 1 - s shifted into [0, d).
            let s = (n + d - 1) % d;
            assert(mm * d == n + d - 1 - s) by {
                assert(n + d - 1 == d * mm + s);
            };
            let r = mm * d - n;
            assert(0 <= r < d);
            assert((-mm) * d == -(mm * d)) by (nonlinear_arith);
            assert(a as int == (-mm) * d + r);
            lemma_fundamental_div_mod_converse_div(a as int, d, -mm, r);
            assert(mm <= mm * d) by (nonlinear_arith)
                requires
                    d >= 1,
                    mm >= 0,
            ;
            assert(mm <= n + d - 1);
        }
        -(m as i64)
    }
}

/// Dividing by a positive integer moves a value toward zero, never past it.
pub proof fn lemma_div_between(a: int, b: int)
    requires
        b >= 1,
    ensures
        a >= 0 ==> 0 <= a / b <= a,
        a < 0 ==> a <= a / b <= 0,
{
    lemma_fundamental_div_mod(a, b);
    lemma_mod_bound(a, b);
    let q = a / b;
    let r = a % b;
    if a >= 0 {
        assert(q >= 0) by (nonlinear_arith)
            requires
                b >= 1,
                0 <= r < b,
                a == b * q + r,
                a >= 0,
        ;
        assert(q <= b * q) by (nonlinear_arith)
            requires
                b >= 1,
                q >= 0,
        ;
    } else {
        assert(q < 0) by (nonlinear_arith)
            requires
                b >= 1,
                0 <= r < b,
                a == b * q + r,
                a < 0,
        ;
        assert(b * (q + 1) <= q + 1) by (nonlinear_arith)
            requires
                b >= 1,
                q + 1 <= 0,
        ;
        assert(b * q + b == b * (q + 1)) by (nonlinear_arith);
        assert(a < b * (q + 1));
    }
}

/// Bounded factors give a bounded product.
pub proof fn lemma_mul_bounds(a: int, b: int, hi_a: int, hi_b: int)
    requires
        hi_a >= 0,
        hi_b >= 0,
        -hi_a <= a <= hi_a,
        -hi_b <= b <= hi_b,
    ensures
        -(hi_a * hi_b) <= a * b <= hi_a * hi_b,
{
    assert(-(hi_a * hi_b) <= a * b <= hi_a * hi_b) by (nonlinear_arith)
        requires
            hi_a >= 0,
            hi_b >= 0,
            -hi_a <= a <= hi_a,
            -hi_b <= b <= hi_b,
    ;
}

/// Step `current` toward `target` by at most `max_delta`, never overshooting.
///
/// This is the clamped-step rule the character controller uses for
/// acceleration and friction: deterministic and frame-rate stable because the
/// step size is fixed per tick.
pub open spec fn move_towards_spec(current: int, target: int, max_delta: int) -> int {
    if abs_i(target - current) <= max_delta {
        target
    } else if target > current {
        current + max_delta
    } else {
        current - max_delta
    }
}

/// Executable clamped step toward a target value.
pub fn move_towards(current: i64, target: i64, max_delta: i64) -> (r: i64)
    requires
        0 <= max_delta < 0x2000_0000_0000_0000,
        -0x2000_0000_0000_0000 < current < 0x2000_0000_0000_0000,
        -0x2000_0000_0000_0000 < target < 0x2000_0000_0000_0000,
    ensures
        r as int == move_towards_spec(current as int, target as int, max_delta as int),
        min_i(current as int, target as int) <= r as int <= max_i(current as int, target as int),
{
    let diff = target - current;
    let mag = if diff < 0 {
        -diff
    } else {
        diff
    };
    if mag <= max_delta {
        target
    } else if diff > 0 {
        current + max_delta
    } else {
        current - max_delta
    }
}

} // verus!
