//! Eight-way facing directions and the quantisation of a movement vector
//! onto them.
//!
//! A vector `(x, y)` faces the direction whose 45° sector holds its angle
//! `θ = atan2(y, x)`. Each sector is centred on its compass direction and is
//! half-open: its clockwise edge belongs to it, its counter-clockwise edge
//! to the next sector. East, for one, is `[-22.5°, 22.5°)`.
//!
//! The edges lie at odd multiples of 22.5°, whose tangents are irrational,
//! so the sectors are told apart at twice the angle instead. With `r` the
//! length of `(x, y)`,
//!
//! ```text
//! (x² − y², 2xy) = r² · (cos 2θ, sin 2θ)
//! ```
//!
//! and doubling sends the sector edges to the odd multiples of 45°, the two
//! diagonals of the plane. Comparing the two doubled coordinates finds the
//! pair of opposite sectors; the sign of `x` or `y` picks one of the pair.

use vstd::prelude::*;

verus! {

/// One of the eight compass directions. East is `+x`, North is `+y`.
#[derive(Clone, Copy, Debug, PartialEq, Eq, Hash, Structural)]
pub enum Direction {
    South,
    SouthEast,
    East,
    NorthEast,
    North,
    NorthWest,
    West,
    SouthWest,
}

/// `r² cos 2θ` for the vector `(x, y)` of length `r` and angle `θ`.
pub open spec fn doubled_cos(x: int, y: int) -> int {
    x * x - y * y
}

/// `r² sin 2θ` for the vector `(x, y)` of length `r` and angle `θ`.
pub open spec fn doubled_sin(x: int, y: int) -> int {
    2 * x * y
}

impl Direction {
    /// Whether the angle of `(x, y)` lies in this direction's sector.
    ///
    /// With `p = r² cos 2θ` and `q = r² sin 2θ`, the doubled angle `2θ` lies
    /// in `[-45°, 45°)` exactly when `-p <= q < p`, in `[45°, 135°)` when
    /// `-q < p <= q`, in `[135°, 225°)` when `p < q <= -p`, and in
    /// `[225°, 315°)` when `q <= p < -q`. The zero vector has no angle and
    /// lies in no sector.
    pub open spec fn in_sector(self, x: int, y: int) -> bool {
        let p = doubled_cos(x, y);
        let q = doubled_sin(x, y);
        match self {
            Direction::East => -p <= q < p && x > 0,
            Direction::West => -p <= q < p && x < 0,
            Direction::NorthEast => -q < p <= q && x > 0,
            Direction::SouthWest => -q < p <= q && x < 0,
            Direction::North => p < q <= -p && y > 0,
            Direction::South => p < q <= -p && y < 0,
            Direction::NorthWest => q <= p < -q && y > 0,
            Direction::SouthEast => q <= p < -q && y < 0,
        }
    }

    /// The direction that `(x, y)` faces: the one whose sector holds it.
    /// The zero vector, whose angle `atan2` gives as 0, faces East.
    pub open spec fn toward(x: int, y: int) -> Direction {
        if x == 0 && y == 0 {
            Direction::East
        } else {
            choose|d: Direction| d.in_sector(x, y)
        }
    }

    /// The direction faced when moving along `(x, y)`.
    pub fn from_movement(x: i32, y: i32) -> (d: Direction)
        ensures
            d == Direction::toward(x as int, y as int),
    {
        let wx: i128 = x as i128;
        let wy: i128 = y as i128;
        proof {
            lemma_square_bound(wx as int, 0x8000_0000);
            lemma_square_bound(wy as int, 0x8000_0000);
            lemma_product_bound(wx as int, wy as int, 0x8000_0000);
            lemma_zero_doubled(x as int, y as int);
            lemma_doubled_signs(x as int, y as int);
        }
        let p: i128 = wx * wx - wy * wy;
        let q: i128 = 2 * (wx * wy);
        assert(p == doubled_cos(x as int, y as int));
        assert(q == doubled_sin(x as int, y as int)) by (nonlinear_arith)
            requires
                q == 2 * (wx * wy),
                wx == x,
                wy == y,
        ;
        let d = if -p <= q && q < p {
            if x > 0 {
                Direction::East
            } else {
                Direction::West
            }
        } else if -q < p && p <= q {
            if x > 0 {
                Direction::NorthEast
            } else {
                Direction::SouthWest
            }
        } else if p < q && q <= -p {
            if y > 0 {
                Direction::North
            } else {
                Direction::South
            }
        } else if q <= p && p < -q {
            if y > 0 {
                Direction::NorthWest
            } else {
                Direction::SouthEast
            }
        } else {
            // Every other vector lies in one of the sectors above.
            assert(x == 0 && y == 0);
            Direction::East
        };
        proof {
            if x != 0 || y != 0 {
                assert(d.in_sector(x as int, y as int));
                Direction::lemma_sectors_partition(x as int, y as int, d);
            }
        }
        d
    }

    /// The eight sectors partition the plane without its origin: every
    /// non-zero vector lies in the sector of the direction it faces and in
    /// no other.
    pub proof fn lemma_sectors_partition(x: int, y: int, d: Direction)
        requires
            x != 0 || y != 0,
        ensures
            d.in_sector(x, y) <==> d == Direction::toward(x, y),
    {
        lemma_zero_doubled(x, y);
        lemma_doubled_signs(x, y);
        let p = doubled_cos(x, y);
        let q = doubled_sin(x, y);
        let w = if -p <= q < p {
            if x > 0 {
                Direction::East
            } else {
                Direction::West
            }
        } else if -q < p <= q {
            if x > 0 {
                Direction::NorthEast
            } else {
                Direction::SouthWest
            }
        } else if p < q <= -p {
            if y > 0 {
                Direction::North
            } else {
                Direction::South
            }
        } else {
            if y > 0 {
                Direction::NorthWest
            } else {
                Direction::SouthEast
            }
        };
        assert(w.in_sector(x, y));
        let c = Direction::toward(x, y);
        assert(c.in_sector(x, y));
        assert(forall|a: Direction, b: Direction|
            a.in_sector(x, y) && b.in_sector(x, y) ==> a == b);
    }

    /// The next direction counter-clockwise, 45° further round.
    pub open spec fn counter_clockwise(self) -> Direction {
        match self {
            Direction::East => Direction::NorthEast,
            Direction::NorthEast => Direction::North,
            Direction::North => Direction::NorthWest,
            Direction::NorthWest => Direction::West,
            Direction::West => Direction::SouthWest,
            Direction::SouthWest => Direction::South,
            Direction::South => Direction::SouthEast,
            Direction::SouthEast => Direction::East,
        }
    }

    /// Turning a vector by 45° counter-clockwise takes it from each sector
    /// into the next: `(x - y, x + y)` is `(x, y)` turned by 45° and
    /// stretched by `√2`.
    pub proof fn lemma_eighth_turn(x: int, y: int, d: Direction)
        ensures
            d.in_sector(x, y) <==> d.counter_clockwise().in_sector(x - y, x + y),
    {
        let p = doubled_cos(x, y);
        let q = doubled_sin(x, y);
        assert(doubled_cos(x - y, x + y) == -2 * q) by (nonlinear_arith)
            requires
                q == 2 * x * y,
        ;
        assert(doubled_sin(x - y, x + y) == 2 * p) by (nonlinear_arith)
            requires
                p == x * x - y * y,
        ;
        lemma_doubled_signs(x, y);
        lemma_doubled_signs(x - y, x + y);
    }

    /// A sector is a set of angles: stretching a vector by a positive factor
    /// leaves it in the same sector.
    pub proof fn lemma_scale(x: int, y: int, k: int, d: Direction)
        requires
            k > 0,
        ensures
            d.in_sector(k * x, k * y) <==> d.in_sector(x, y),
    {
        let p = doubled_cos(x, y);
        let q = doubled_sin(x, y);
        let kk = k * k;
        assert(kk > 0) by (nonlinear_arith)
            requires
                kk == k * k,
                k > 0,
        ;
        assert(doubled_cos(k * x, k * y) == kk * p) by (nonlinear_arith)
            requires
                p == x * x - y * y,
                kk == k * k,
        ;
        assert(doubled_sin(k * x, k * y) == kk * q) by (nonlinear_arith)
            requires
                q == 2 * x * y,
                kk == k * k,
        ;
        assert((kk * p > 0 <==> p > 0) && (kk * p < 0 <==> p < 0)) by (nonlinear_arith)
            requires
                kk > 0,
        ;
        assert((kk * q < kk * p <==> q < p) && (kk * p <= kk * q <==> p <= q)
            && (kk * p < kk * q <==> p < q) && (kk * q <= kk * p <==> q <= p))
            by (nonlinear_arith)
            requires
                kk > 0,
        ;
        assert((-(kk * p) <= kk * q <==> -p <= q) && (-(kk * q) < kk * p <==> -q < p)
            && (kk * q <= -(kk * p) <==> q <= -p) && (kk * p < -(kk * q) <==> p < -q))
            by (nonlinear_arith)
            requires
                kk > 0,
        ;
        assert((k * x > 0 <==> x > 0) && (k * x < 0 <==> x < 0) && (k * y > 0 <==> y > 0)
            && (k * y < 0 <==> y < 0)) by (nonlinear_arith)
            requires
                k > 0,
        ;
    }

    /// No vector with integer coordinates points along the edge between two
    /// sectors, where `|cos 2θ| = |sin 2θ|`: the half-open convention at the
    /// edges never decides integer input.
    pub proof fn lemma_off_the_edges(x: int, y: int)
        requires
            x != 0 || y != 0,
        ensures
            doubled_cos(x, y) != doubled_sin(x, y),
            doubled_cos(x, y) != -doubled_sin(x, y),
    {
        let b: nat = if y >= 0 { y as nat } else { (-y) as nat };
        if doubled_cos(x, y) == doubled_sin(x, y) {
            let a: nat = if x - y >= 0 { (x - y) as nat } else { (y - x) as nat };
            assert(a * a == 2 * b * b) by (nonlinear_arith)
                requires
                    x * x - y * y == 2 * x * y,
                    a == x - y || a == y - x,
                    b == y || b == -y,
            ;
            lemma_sqrt2_irrational(a, b);
        }
        if doubled_cos(x, y) == -doubled_sin(x, y) {
            let a: nat = if x + y >= 0 { (x + y) as nat } else { (-x - y) as nat };
            assert(a * a == 2 * b * b) by (nonlinear_arith)
                requires
                    x * x - y * y == -(2 * x * y),
                    a == x + y || a == -x - y,
                    b == y || b == -y,
            ;
            lemma_sqrt2_irrational(a, b);
        }
    }

    /// Each unit step along an axis or a diagonal faces its own compass
    /// direction.
    pub proof fn lemma_compass()
        ensures
            Direction::toward(1, 0) == Direction::East,
            Direction::toward(1, 1) == Direction::NorthEast,
            Direction::toward(0, 1) == Direction::North,
            Direction::toward(-1, 1) == Direction::NorthWest,
            Direction::toward(-1, 0) == Direction::West,
            Direction::toward(-1, -1) == Direction::SouthWest,
            Direction::toward(0, -1) == Direction::South,
            Direction::toward(1, -1) == Direction::SouthEast,
    {
        Direction::lemma_sectors_partition(1, 0, Direction::East);
        Direction::lemma_sectors_partition(1, 1, Direction::NorthEast);
        Direction::lemma_sectors_partition(0, 1, Direction::North);
        Direction::lemma_sectors_partition(-1, 1, Direction::NorthWest);
        Direction::lemma_sectors_partition(-1, 0, Direction::West);
        Direction::lemma_sectors_partition(-1, -1, Direction::SouthWest);
        Direction::lemma_sectors_partition(0, -1, Direction::South);
        Direction::lemma_sectors_partition(1, -1, Direction::SouthEast);
    }
}

/// The square root of 2 is irrational: no square is twice another but 0.
proof fn lemma_sqrt2_irrational(a: nat, b: nat)
    requires
        a * a == 2 * b * b,
    ensures
        a == 0 && b == 0,
    decreases a,
{
    if a != 0 {
        let k: nat = a / 2;
        let bb: nat = b * b;
        assert(2 * b * b == 2 * bb) by (nonlinear_arith)
            requires
                bb == b * b,
        ;
        if a % 2 == 1 {
            assert(a * a == 2 * (2 * k * k + 2 * k) + 1) by (nonlinear_arith)
                requires
                    a == 2 * k + 1,
            ;
            assert(false);
        }
        assert(a * a == 4 * (k * k)) by (nonlinear_arith)
            requires
                a == 2 * k,
        ;
        assert(b * b == 2 * k * k) by (nonlinear_arith)
            requires
                bb == b * b,
                2 * bb == 4 * (k * k),
        ;
        assert(b < a) by (nonlinear_arith)
            requires
                a * a == 2 * b * b,
                a != 0,
        ;
        lemma_sqrt2_irrational(b, k);
    } else {
        assert(b == 0) by (nonlinear_arith)
            requires
                a == 0,
                a * a == 2 * b * b,
        ;
    }
}

/// `|a| <= m` bounds the square of `a` by `m²`.
proof fn lemma_square_bound(a: int, m: int)
    requires
        -m <= a <= m,
    ensures
        0 <= a * a <= m * m,
{
    assert(0 <= a * a <= m * m) by (nonlinear_arith)
        requires
            -m <= a <= m,
    ;
}

/// `|a| <= m` and `|b| <= m` bound the product of `a` and `b` by `m²`.
proof fn lemma_product_bound(a: int, b: int, m: int)
    requires
        -m <= a <= m,
        -m <= b <= m,
    ensures
        -(m * m) <= a * b <= m * m,
{
    assert(-(m * m) <= a * b <= m * m) by (nonlinear_arith)
        requires
            -m <= a <= m,
            -m <= b <= m,
    ;
}

/// Only the zero vector has both doubled coordinates zero.
proof fn lemma_zero_doubled(x: int, y: int)
    ensures
        doubled_cos(x, y) == 0 && doubled_sin(x, y) == 0 ==> x == 0 && y == 0,
{
    assert(x * x == y * y && 2 * x * y == 0 ==> x == 0 && y == 0) by (nonlinear_arith);
}

/// What the signs of the doubled coordinates say of `x` and `y`.
proof fn lemma_doubled_signs(x: int, y: int)
    ensures
        doubled_cos(x, y) > 0 ==> x != 0,
        doubled_cos(x, y) < 0 ==> y != 0,
        doubled_sin(x, y) > 0 ==> (x > 0 && y > 0) || (x < 0 && y < 0),
        doubled_sin(x, y) < 0 ==> (x > 0 && y < 0) || (x < 0 && y > 0),
{
    assert(x * x - y * y > 0 ==> x != 0) by (nonlinear_arith);
    assert(x * x - y * y < 0 ==> y != 0) by (nonlinear_arith);
    assert(2 * x * y > 0 ==> (x > 0 && y > 0) || (x < 0 && y < 0)) by (nonlinear_arith);
    assert(2 * x * y < 0 ==> (x > 0 && y < 0) || (x < 0 && y > 0)) by (nonlinear_arith);
}

} // verus!
