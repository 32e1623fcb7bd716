//! The directional animator: which way a character faces, whether it stands
//! or walks, and which frame of its animation shows.
//!
//! Each frame the host steers the character with the player's intent and
//! animates it with the time that has passed. Steering turns the character
//! and switches between standing and walking; animating steps through the
//! frames of the current animation at a fixed period.

use crate::direction::Direction;
use crate::frames::{AnimationState, FrameKey, FrameSet};
use crate::intent::{Axis, Intent};
use crate::motion::Position;
use crate::timer::{total, IntervalTimer};
use vstd::arithmetic::div_mod::lemma_fundamental_div_mod_converse;
use vstd::prelude::*;

verus! {

/// A character on screen.
#[derive(Clone, Copy, Debug, PartialEq, Eq, Structural)]
pub struct Character {
    /// The way the character faces.
    pub direction: Direction,
    /// Whether it stands or walks.
    pub state: AnimationState,
    /// The frame of the current animation that shows.
    pub frame_index: usize,
    /// Times the steps from frame to frame.
    pub timer: IntervalTimer,
    /// Distance covered per unit of time while walking.
    pub speed: u32,
}

impl AnimationState {
    /// The state that an intent calls for: walking exactly while it is
    /// non-zero.
    pub open spec fn of(intent: Intent) -> AnimationState {
        if intent.moving() {
            AnimationState::Walking
        } else {
            AnimationState::Idle
        }
    }
}

/// The frame that follows `index` in an animation of `count` frames: the
/// next one, and the first again after the last. An index outside the
/// animation is followed by the first frame.
pub open spec fn next_index(index: nat, count: nat) -> nat {
    if index + 1 < count {
        index + 1
    } else {
        0
    }
}

/// The frame reached from `index` after the timer has fired `fires` times.
pub open spec fn index_after(index: nat, count: nat, fires: nat) -> nat
    decreases fires,
{
    if fires == 0 {
        index
    } else {
        next_index(index_after(index, count, (fires - 1) as nat), count)
    }
}

impl Character {
    /// The animation that the character is in.
    pub open spec fn key(self) -> FrameKey {
        FrameKey { state: self.state, direction: self.direction }
    }

    /// Whether `intent` changes the animation: the character starts or
    /// stops walking, or turns while it walks.
    pub open spec fn reacts(self, intent: Intent) -> bool {
        AnimationState::of(intent) != self.state || (intent.moving() && intent.facing()
            != self.direction)
    }

    /// The character after it is steered by `intent`. A change of animation
    /// starts the new one at its first frame; a standing character keeps
    /// the way it faced.
    pub open spec fn steered(self, intent: Intent) -> Character {
        if self.reacts(intent) {
            Character {
                direction: if intent.moving() {
                    intent.facing()
                } else {
                    self.direction
                },
                state: AnimationState::of(intent),
                frame_index: 0,
                timer: self.timer,
                speed: self.speed,
            }
        } else {
            self
        }
    }

    /// Whether a step of `dt` moves an animation of `count` frames on to
    /// its next frame: the timer fires and the animation is present.
    pub open spec fn advances(self, dt: u32, count: nat) -> bool {
        self.timer.fires(dt) && count > 0
    }

    /// The character after the time `dt`, in an animation of `count`
    /// frames (0 if it is absent).
    pub open spec fn animated(self, dt: u32, count: nat) -> Character {
        Character {
            direction: self.direction,
            state: self.state,
            frame_index: if self.advances(dt, count) {
                next_index(self.frame_index as nat, count) as usize
            } else {
                self.frame_index
            },
            timer: self.timer.ticked(dt),
            speed: self.speed,
        }
    }

    /// The character after one frame without input that lasts `dt`.
    pub open spec fn rested<F>(self, dt: u32, frames: FrameSet<F>) -> Character {
        let steered = self.steered(Intent { x: Axis::Neutral, y: Axis::Neutral });
        steered.animated(dt, frames.count(steered.key()))
    }

    /// The character after frames without input that last `deltas`.
    pub open spec fn rested_through<F>(self, deltas: Seq<u32>, frames: FrameSet<F>) -> Character
        decreases deltas.len(),
    {
        if deltas.len() == 0 {
            self
        } else {
            self.rested_through(deltas.drop_last(), frames).rested(deltas.last(), frames)
        }
    }

    /// In how many of the frames without input that last `deltas` the
    /// animation moves on to its next frame.
    pub open spec fn rest_advances<F>(self, deltas: Seq<u32>, frames: FrameSet<F>) -> nat
        decreases deltas.len(),
    {
        if deltas.len() == 0 {
            0
        } else {
            let before = self.rested_through(deltas.drop_last(), frames);
            let steered = before.steered(Intent { x: Axis::Neutral, y: Axis::Neutral });
            self.rest_advances(deltas.drop_last(), frames) + if steered.advances(
                deltas.last(),
                frames.count(steered.key()),
            ) {
                1nat
            } else {
                0nat
            }
        }
    }

    /// A character as it is at the start of a scene: facing South, standing,
    /// at the first frame, with nothing on the timer.
    pub fn new(speed: u32, frame_period: u32) -> (character: Character)
        ensures
            character == (Character {
                direction: Direction::South,
                state: AnimationState::Idle,
                frame_index: 0,
                timer: IntervalTimer { elapsed: 0, period: frame_period },
                speed,
            }),
    {
        Character {
            direction: Direction::South,
            state: AnimationState::Idle,
            frame_index: 0,
            timer: IntervalTimer::new(frame_period),
            speed,
        }
    }

    /// Steers the character by this frame's intent. Where that changes the
    /// animation, the result is the first frame of the new one, for the
    /// host to show; it is nothing where the animation stays, or where the
    /// new one is absent, and the host then keeps the frame it shows.
    pub fn steer<'a, F>(&mut self, intent: Intent, frames: &'a FrameSet<F>) -> (shown: Option<
        &'a F,
    >)
        ensures
            *final(self) == old(self).steered(intent),
            shown == (if old(self).reacts(intent) {
                frames.frame_at(final(self).key(), 0)
            } else {
                None
            }),
    {
        let facing = intent.direction();
        let state = if intent.is_moving() {
            AnimationState::Walking
        } else {
            AnimationState::Idle
        };
        let turned = match facing {
            Some(direction) => direction != self.direction,
            None => false,
        };
        if state != self.state || turned {
            if let Some(direction) = facing {
                self.direction = direction;
            }
            self.state = state;
            self.frame_index = 0;
            frames.frame(FrameKey { state: self.state, direction: self.direction }, 0)
        } else {
            None
        }
    }

    /// One frame of movement: steers the character by `intent`, then moves
    /// `position` along `intent` for the time `dt` at the character's
    /// speed. The result is that of [`Character::steer`].
    pub fn walk<'a, F>(
        &mut self,
        position: &mut Position,
        intent: Intent,
        dt: u32,
        frames: &'a FrameSet<F>,
    ) -> (shown: Option<&'a F>)
        ensures
            *final(self) == old(self).steered(intent),
            *final(position) == old(position).moved(intent, (old(self).speed * dt) as nat),
            shown == (if old(self).reacts(intent) {
                frames.frame_at(final(self).key(), 0)
            } else {
                None
            }),
    {
        let shown = self.steer(intent, frames);
        position.advance(intent, self.speed, dt);
        shown
    }

    /// Lets the time `dt` pass. When the timer fires and the current
    /// animation is present, the animation moves on to its next frame, and
    /// the result is that frame, for the host to show. Otherwise the
    /// result is nothing and the frame index stays.
    pub fn animate<'a, F>(&mut self, dt: u32, frames: &'a FrameSet<F>) -> (shown: Option<&'a F>)
        ensures
            *final(self) == old(self).animated(dt, frames.count(old(self).key())),
            shown == (if old(self).advances(dt, frames.count(old(self).key())) {
                frames.frame_at(old(self).key(), final(self).frame_index as int)
            } else {
                None
            }),
            old(self).advances(dt, frames.count(old(self).key())) ==> shown is Some,
    {
        let fired = self.timer.tick(dt);
        if !fired {
            return None;
        }
        let key = FrameKey { state: self.state, direction: self.direction };
        match frames.get(key) {
            Some(list) => {
                let count = list.len();
                self.frame_index = if self.frame_index < count - 1 {
                    self.frame_index + 1
                } else {
                    0
                };
                Some(&list[self.frame_index])
            },
            None => None,
        }
    }

    /// The frame that the character is at, if its animation is present and
    /// has that frame.
    pub fn current_frame<'a, F>(&self, frames: &'a FrameSet<F>) -> (shown: Option<&'a F>)
        ensures
            shown == frames.frame_at(self.key(), self.frame_index as int),
    {
        frames.frame(FrameKey { state: self.state, direction: self.direction }, self.frame_index)
    }

    /// After steering the character walks exactly if the intent is
    /// non-zero, and then faces the way the intent does; a character that
    /// is brought to a stand keeps the way it faced. Timer and speed are
    /// not touched.
    pub proof fn lemma_steered(self, intent: Intent)
        ensures
            self.steered(intent).state == AnimationState::of(intent),
            self.steered(intent).direction == (if intent.moving() {
                intent.facing()
            } else {
                self.direction
            }),
            self.steered(intent).frame_index == (if self.reacts(intent) {
                0
            } else {
                self.frame_index
            }),
            self.steered(intent).timer == self.timer,
            self.steered(intent).speed == self.speed,
            !self.steered(intent).reacts(intent),
    {
    }

    /// A standing character that starts to move walks from that frame on,
    /// faces the way it moves, and is at the first frame of its walk.
    pub proof fn lemma_starts_walking(self, intent: Intent)
        requires
            self.state == AnimationState::Idle,
            intent.moving(),
        ensures
            self.reacts(intent),
            self.steered(intent).state == AnimationState::Walking,
            self.steered(intent).frame_index == 0,
            self.steered(intent).direction == intent.facing(),
    {
    }

    /// Steering and animating keep the frame index inside the animation:
    /// after a change of animation it is 0, and after the animation has
    /// moved on it is below the number of frames.
    pub proof fn lemma_index_in_range(self, intent: Intent, dt: u32, count: nat)
        requires
            count <= usize::MAX,
        ensures
            self.reacts(intent) ==> self.steered(intent).frame_index == 0,
            self.advances(dt, count) ==> self.animated(dt, count).frame_index < count,
            self.frame_index < count ==> self.animated(dt, count).frame_index < count,
    {
    }

    /// Without input a character stands from the first frame on and keeps
    /// the way it faces, and its animation moves on no faster than the
    /// timer's period: every step from frame to frame uses up a full
    /// period of the time that was on the timer or has passed since.
    pub proof fn lemma_rest<F>(self, deltas: Seq<u32>, frames: FrameSet<F>)
        ensures
            deltas.len() > 0 ==> self.rested_through(deltas, frames).state
                == AnimationState::Idle,
            self.rested_through(deltas, frames).direction == self.direction,
            self.rested_through(deltas, frames).timer == self.timer.after(deltas),
            self.rest_advances(deltas, frames) <= self.timer.fire_count(deltas),
            self.rest_advances(deltas, frames) * self.timer.period <= self.timer.elapsed + total(
                deltas,
            ),
        decreases deltas.len(),
    {
        let p = self.timer.period as int;
        self.timer.lemma_fire_rate(deltas);
        if deltas.len() > 0 {
            self.lemma_rest(deltas.drop_last(), frames);
        }
        let a = self.rest_advances(deltas, frames) as int;
        let f = self.timer.fire_count(deltas) as int;
        assert(a <= f);
        assert(a * p <= f * p) by (nonlinear_arith)
            requires
                0 <= a <= f,
                0 <= p,
        ;
    }

    /// A character that stands keeps its frame index through a frame
    /// without input unless the timer fires in it.
    pub proof fn lemma_rest_keeps_frame<F>(self, dt: u32, frames: FrameSet<F>)
        requires
            self.state == AnimationState::Idle,
            !self.timer.fires(dt),
        ensures
            self.rested(dt, frames).frame_index == self.frame_index,
            self.rested(dt, frames).state == AnimationState::Idle,
    {
    }
}

/// The frames of an animation come round: from a frame inside an animation
/// of `count` frames, `fires` firings of the timer lead to frame
/// `(index + fires) mod count`, and `count` firings back to where they
/// began.
pub proof fn lemma_frame_cycle(index: nat, count: nat, fires: nat)
    requires
        index < count,
    ensures
        index_after(index, count, fires) == (index + fires) % count,
        index_after(index, count, count) == index,
{
    lemma_index_after(index, count, fires);
    lemma_index_after(index, count, count);
    lemma_fundamental_div_mod_converse((index + count) as int, count as int, 1, index as int);
}

/// `index_after` counts modulo the number of frames.
proof fn lemma_index_after(index: nat, count: nat, fires: nat)
    requires
        index < count,
    ensures
        index_after(index, count, fires) == (index + fires) % count,
    decreases fires,
{
    let n = count as int;
    if fires == 0 {
        lemma_fundamental_div_mod_converse(index as int, n, 0, index as int);
    } else {
        lemma_index_after(index, count, (fires - 1) as nat);
        let x = index + fires - 1;
        let q = x / n;
        let r = x % n;
        assert(x == q * n + r && 0 <= r < n) by (nonlinear_arith)
            requires
                q == x / n,
                r == x % n,
                n > 0,
        ;
        if r + 1 < n {
            lemma_fundamental_div_mod_converse(x + 1, n, q, r + 1);
        } else {
            assert(x + 1 == (q + 1) * n + 0) by (nonlinear_arith)
                requires
                    x == q * n + r,
                    r + 1 == n,
            ;
            lemma_fundamental_div_mod_converse(x + 1, n, q + 1, 0);
        }
    }
}

} // verus!
