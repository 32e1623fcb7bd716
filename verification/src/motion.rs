//! Movement at a constant speed: how far one frame carries the character
//! along each axis.
//!
//! The intent vector is brought to unit length before it is scaled, so a
//! diagonal step covers the same distance as a straight one. Positions are
//! whole numbers of the caller's smallest unit; a diagonal step of length
//! `step` moves `⌊step / √2⌋` along each axis.

use crate::intent::Intent;
use vstd::prelude::*;

verus! {

/// Whether `root` is the integer square root of `n`: the largest natural
/// whose square does not exceed `n`.
pub open spec fn is_isqrt(n: nat, root: nat) -> bool {
    root * root <= n < (root + 1) * (root + 1)
}

/// The integer square root of `n`.
pub open spec fn isqrt(n: nat) -> nat {
    choose|root: nat| is_isqrt(n, root)
}

/// `⌊step / √2⌋`: the part of a diagonal step of length `step` that falls
/// along each axis.
pub open spec fn diagonal_share(step: nat) -> nat {
    isqrt(step * step / 2)
}

/// How far a step of length `step` carries along each axis that `intent`
/// pulls on.
pub open spec fn axis_travel(intent: Intent, step: nat) -> nat {
    if intent.diagonal() {
        diagonal_share(step)
    } else if intent.moving() {
        step
    } else {
        0
    }
}

/// `v`, held to the range of `i64`.
pub open spec fn clamped(v: int) -> int {
    if v < i64::MIN {
        i64::MIN as int
    } else if v > i64::MAX {
        i64::MAX as int
    } else {
        v
    }
}

/// Squares grow with their roots.
proof fn lemma_square_monotonic(a: nat, b: nat)
    requires
        a <= b,
    ensures
        a * a <= b * b,
{
    assert(a * a <= b * b) by (nonlinear_arith)
        requires
            a <= b,
    ;
}

/// A number has one integer square root.
pub proof fn lemma_isqrt_unique(n: nat, root: nat)
    requires
        is_isqrt(n, root),
    ensures
        isqrt(n) == root,
{
    let other = isqrt(n);
    assert(is_isqrt(n, other));
    if other < root {
        lemma_square_monotonic(other + 1, root);
    }
    if root < other {
        lemma_square_monotonic(root + 1, other);
    }
}

/// The integer square root of `n`.
pub fn floor_sqrt(n: u128) -> (root: u64)
    ensures
        root == isqrt(n as nat),
        is_isqrt(n as nat, root as nat),
{
    let mut low: u128 = 0;
    let mut high: u128 = 0x1_0000_0000_0000_0000;
    assert(0x1_0000_0000_0000_0000int * 0x1_0000_0000_0000_0000int
        == 0x1_0000_0000_0000_0000_0000_0000_0000_0000int) by (nonlinear_arith);
    while high - low > 1
        invariant
            low < high <= 0x1_0000_0000_0000_0000,
            low * low <= n < high * high,
        decreases high - low,
    {
        let mid: u128 = low + (high - low) / 2;
        assert(mid * mid <= 0xffff_ffff_ffff_ffffint * 0xffff_ffff_ffff_ffffint)
            by (nonlinear_arith)
            requires
                0 <= mid <= 0xffff_ffff_ffff_ffff,
        ;
        assert(0xffff_ffff_ffff_ffffint * 0xffff_ffff_ffff_ffffint
            < 0x1_0000_0000_0000_0000_0000_0000_0000_0000int) by (nonlinear_arith);
        if mid * mid <= n {
            low = mid;
        } else {
            high = mid;
        }
    }
    proof {
        lemma_isqrt_unique(n as nat, low as nat);
    }
    low as u64
}

/// A point of the plane.
#[derive(Clone, Copy, Debug, PartialEq, Eq, Structural)]
pub struct Position {
    pub x: i64,
    pub y: i64,
}

impl Position {
    /// The point reached by a step of length `step` along `intent`. A
    /// coordinate that would leave the range of `i64` stops at its end.
    pub open spec fn moved(self, intent: Intent, step: nat) -> Position {
        Position {
            x: clamped(self.x + intent.x.sign() * axis_travel(intent, step)) as i64,
            y: clamped(self.y + intent.y.sign() * axis_travel(intent, step)) as i64,
        }
    }

    /// Moves along `intent` for the time `dt` at `speed`: a step of length
    /// `speed * dt`, where `speed` is in units of position per unit of time.
    pub fn advance(&mut self, intent: Intent, speed: u32, dt: u32)
        ensures
            *final(self) == old(self).moved(intent, (speed * dt) as nat),
    {
        assert(0 <= speed * dt <= 0xffff_ffff * 0xffff_ffff) by (nonlinear_arith);
        let step: u64 = speed as u64 * dt as u64;
        let travel: u64 = if intent.is_diagonal() {
            assert(step * step <= 0xffff_ffff_ffff_ffffint * 0xffff_ffff_ffff_ffffint)
                by (nonlinear_arith)
                requires
                    0 <= step <= 0xffff_ffff_ffff_ffff,
            ;
            assert(0xffff_ffff_ffff_ffffint * 0xffff_ffff_ffff_ffffint
                < 0x1_0000_0000_0000_0000_0000_0000_0000_0000int) by (nonlinear_arith);
            floor_sqrt(step as u128 * step as u128 / 2)
        } else if intent.is_moving() {
            step
        } else {
            0
        };
        assert(travel == axis_travel(intent, step as nat));
        self.x = shifted(self.x, intent.x.value(), travel);
        self.y = shifted(self.y, intent.y.value(), travel);
    }

    /// A step keeps its length: what it moves, taken as a vector, is no
    /// longer than `step`, and would be longer if it went one unit further
    /// along each axis that is pulled on. A diagonal step in particular
    /// does not cover `step` along both axes at once.
    pub proof fn lemma_step_length(intent: Intent, step: nat)
        requires
            intent.moving(),
        ensures
            squared_reach(intent, axis_travel(intent, step)) <= step * step,
            step * step < squared_reach(intent, axis_travel(intent, step) + 1),
            !intent.diagonal() ==> squared_reach(intent, axis_travel(intent, step)) == step * step,
    {
        let t = axis_travel(intent, step) as int;
        let u = t + 1;
        assert((-1 * t) * (-1 * t) == t * t) by (nonlinear_arith);
        assert((1 * t) * (1 * t) == t * t) by (nonlinear_arith);
        assert((0 * t) * (0 * t) == 0) by (nonlinear_arith);
        assert((-1 * u) * (-1 * u) == u * u) by (nonlinear_arith);
        assert((1 * u) * (1 * u) == u * u) by (nonlinear_arith);
        assert((0 * u) * (0 * u) == 0) by (nonlinear_arith);
        if intent.diagonal() {
            lemma_diagonal_share(step);
        } else {
            assert(step * step < (step + 1) * (step + 1)) by (nonlinear_arith);
        }
    }
}

/// The squared length of the vector moved when each axis that `intent`
/// pulls on moves by `travel`.
pub open spec fn squared_reach(intent: Intent, travel: nat) -> int {
    let dx = intent.x.sign() * travel;
    let dy = intent.y.sign() * travel;
    dx * dx + dy * dy
}

/// Twice the square of the diagonal share brackets the square of the step:
/// `2·d² <= step² < 2·(d + 1)²`.
pub proof fn lemma_diagonal_share(step: nat)
    ensures
        2 * (diagonal_share(step) * diagonal_share(step)) <= step * step,
        step * step < 2 * ((diagonal_share(step) + 1) * (diagonal_share(step) + 1)),
{
    let half = step * step / 2;
    lemma_isqrt_exists(half);
    let d = diagonal_share(step);
    assert(is_isqrt(half, d));
}

/// Every natural has an integer square root.
pub proof fn lemma_isqrt_exists(n: nat)
    ensures
        is_isqrt(n, isqrt(n)),
    decreases n,
{
    if n == 0 {
        assert(is_isqrt(0, 0)) by (nonlinear_arith);
    } else {
        lemma_isqrt_exists((n - 1) as nat);
        let r = isqrt((n - 1) as nat);
        if (r + 1) * (r + 1) <= n {
            assert((r + 1) * (r + 1) == n);
            assert(n < (r + 2) * (r + 2)) by (nonlinear_arith)
                requires
                    (r + 1) * (r + 1) == n,
            ;
            assert(is_isqrt(n, r + 1));
        } else {
            assert(is_isqrt(n, r));
        }
    }
}

/// `from`, moved by `travel` the way `sign` points and held to the range of
/// `i64`.
fn shifted(from: i64, sign: i32, travel: u64) -> (to: i64)
    requires
        -1 <= sign <= 1,
    ensures
        to == clamped(from + sign * travel),
{
    assert(sign * travel == if sign == 1 {
        travel as int
    } else if sign == 0 {
        0
    } else {
        -(travel as int)
    }) by (nonlinear_arith)
        requires
            -1 <= sign <= 1,
    ;
    let target: i128 = if sign > 0 {
        from as i128 + travel as i128
    } else if sign < 0 {
        from as i128 - travel as i128
    } else {
        from as i128
    };
    if target < i64::MIN as i128 {
        i64::MIN
    } else if target > i64::MAX as i128 {
        i64::MAX
    } else {
        target as i64
    }
}

} // verus!
