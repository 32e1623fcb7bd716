//! The movement that the player asks for in one frame: for each axis, which
//! way the pressed keys pull.
//!
//! The way a character faces follows from the angle of this vector alone.
//! The order in which the keys are read has no part in it, and two opposed
//! keys held together cancel.

use crate::direction::Direction;
use vstd::prelude::*;

verus! {

/// The pull along one axis.
#[derive(Clone, Copy, Debug, PartialEq, Eq, Structural)]
pub enum Axis {
    Negative,
    Neutral,
    Positive,
}

/// 1 for a key that is held down, 0 for one that is not.
pub open spec fn held(key: bool) -> int {
    if key {
        1
    } else {
        0
    }
}

impl Axis {
    /// The pull as a number: -1, 0 or 1.
    pub open spec fn sign(self) -> int {
        match self {
            Axis::Negative => -1,
            Axis::Neutral => 0,
            Axis::Positive => 1,
        }
    }

    /// The pull as a number: -1, 0 or 1.
    pub fn value(self) -> (v: i32)
        ensures
            v == self.sign(),
    {
        match self {
            Axis::Negative => -1,
            Axis::Neutral => 0,
            Axis::Positive => 1,
        }
    }

    /// The pull of two opposed keys: each adds one step its own way, so both
    /// together cancel.
    pub fn from_keys(positive: bool, negative: bool) -> (axis: Axis)
        ensures
            axis.sign() == held(positive) - held(negative),
    {
        if positive && !negative {
            Axis::Positive
        } else if negative && !positive {
            Axis::Negative
        } else {
            Axis::Neutral
        }
    }
}

/// The intent vector of one frame, before it is brought to unit length.
#[derive(Clone, Copy, Debug, PartialEq, Eq, Structural)]
pub struct Intent {
    pub x: Axis,
    pub y: Axis,
}

impl Intent {
    /// Whether the vector is non-zero.
    pub open spec fn moving(self) -> bool {
        self.x.sign() != 0 || self.y.sign() != 0
    }

    /// Whether the vector has a part along both axes.
    pub open spec fn diagonal(self) -> bool {
        self.x.sign() != 0 && self.y.sign() != 0
    }

    /// The direction that the vector faces.
    pub open spec fn facing(self) -> Direction {
        Direction::toward(self.x.sign(), self.y.sign())
    }

    /// The intent with no key held.
    pub fn none() -> (intent: Intent)
        ensures
            !intent.moving(),
            intent == (Intent { x: Axis::Neutral, y: Axis::Neutral }),
    {
        Intent { x: Axis::Neutral, y: Axis::Neutral }
    }

    /// The intent of the four movement keys: `up` and `down` pull along
    /// `+y` and `-y`, `right` and `left` along `+x` and `-x`.
    pub fn from_keys(up: bool, down: bool, left: bool, right: bool) -> (intent: Intent)
        ensures
            intent.x.sign() == held(right) - held(left),
            intent.y.sign() == held(up) - held(down),
    {
        Intent { x: Axis::from_keys(right, left), y: Axis::from_keys(up, down) }
    }

    /// Whether the vector is non-zero.
    pub fn is_moving(&self) -> (moving: bool)
        ensures
            moving == self.moving(),
    {
        self.x.value() != 0 || self.y.value() != 0
    }

    /// Whether the vector has a part along both axes.
    pub fn is_diagonal(&self) -> (diagonal: bool)
        ensures
            diagonal == self.diagonal(),
    {
        self.x.value() != 0 && self.y.value() != 0
    }

    /// The direction that the vector faces, if it is non-zero.
    pub fn direction(&self) -> (facing: Option<Direction>)
        ensures
            facing == (if self.moving() {
                Some(self.facing())
            } else {
                None
            }),
    {
        if self.is_moving() {
            Some(Direction::from_movement(self.x.value(), self.y.value()))
        } else {
            None
        }
    }

    /// A vector with axes in -1, 0 and 1 faces the compass direction that
    /// its axes name.
    pub proof fn lemma_facing(self)
        ensures
            self.facing() == match (self.x, self.y) {
                (Axis::Positive, Axis::Neutral) => Direction::East,
                (Axis::Positive, Axis::Positive) => Direction::NorthEast,
                (Axis::Neutral, Axis::Positive) => Direction::North,
                (Axis::Negative, Axis::Positive) => Direction::NorthWest,
                (Axis::Negative, Axis::Neutral) => Direction::West,
                (Axis::Negative, Axis::Negative) => Direction::SouthWest,
                (Axis::Neutral, Axis::Negative) => Direction::South,
                (Axis::Positive, Axis::Negative) => Direction::SouthEast,
                (Axis::Neutral, Axis::Neutral) => Direction::East,
            },
    {
        Direction::lemma_compass();
    }
}

} // verus!
