//! The frames of each animation: a read-only table from an animation state
//! and a direction to the ordered frames that show it.

use crate::direction::Direction;
use vstd::prelude::*;

verus! {

/// Whether the character stands or walks.
#[derive(Clone, Copy, Debug, PartialEq, Eq, Hash, Structural)]
pub enum AnimationState {
    Idle,
    Walking,
}

/// What selects one animation: a state and a direction.
#[derive(Clone, Copy, Debug, PartialEq, Eq, Hash, Structural)]
pub struct FrameKey {
    pub state: AnimationState,
    pub direction: Direction,
}

/// One value for each of the eight directions.
pub struct DirectionTable<T> {
    pub south: T,
    pub south_east: T,
    pub east: T,
    pub north_east: T,
    pub north: T,
    pub north_west: T,
    pub west: T,
    pub south_west: T,
}

impl<T> DirectionTable<T> {
    /// The value kept for `direction`.
    pub open spec fn at(self, direction: Direction) -> T {
        match direction {
            Direction::South => self.south,
            Direction::SouthEast => self.south_east,
            Direction::East => self.east,
            Direction::NorthEast => self.north_east,
            Direction::North => self.north,
            Direction::NorthWest => self.north_west,
            Direction::West => self.west,
            Direction::SouthWest => self.south_west,
        }
    }

    /// The value kept for `direction`.
    pub fn get(&self, direction: Direction) -> (value: &T)
        ensures
            *value == self.at(direction),
    {
        match direction {
            Direction::South => &self.south,
            Direction::SouthEast => &self.south_east,
            Direction::East => &self.east,
            Direction::NorthEast => &self.north_east,
            Direction::North => &self.north,
            Direction::NorthWest => &self.north_west,
            Direction::West => &self.west,
            Direction::SouthWest => &self.south_west,
        }
    }

    /// Replaces the value kept for `direction` and leaves the others.
    pub fn set(&mut self, direction: Direction, value: T)
        ensures
            final(self).at(direction) == value,
            forall|other: Direction|
                other != direction ==> final(self).at(other) == old(self).at(other),
    {
        match direction {
            Direction::South => {
                self.south = value;
            },
            Direction::SouthEast => {
                self.south_east = value;
            },
            Direction::East => {
                self.east = value;
            },
            Direction::NorthEast => {
                self.north_east = value;
            },
            Direction::North => {
                self.north = value;
            },
            Direction::NorthWest => {
                self.north_west = value;
            },
            Direction::West => {
                self.west = value;
            },
            Direction::SouthWest => {
                self.south_west = value;
            },
        }
    }
}

/// The frames of every animation. An animation is either absent or has at
/// least one frame; its list is kept empty while it is absent.
pub struct FrameSet<F> {
    pub idle: DirectionTable<Vec<F>>,
    pub walking: DirectionTable<Vec<F>>,
}

impl<F> View for FrameSet<F> {
    type V = Map<FrameKey, Seq<F>>;

    /// The animations that are present, each with its frames in order.
    open spec fn view(&self) -> Map<FrameKey, Seq<F>> {
        Map::new(|key: FrameKey| self.list(key).len() > 0, |key: FrameKey| self.list(key))
    }
}

impl<F> FrameSet<F> {
    /// The list kept for `key`, empty while the animation is absent.
    pub open spec fn list(&self, key: FrameKey) -> Seq<F> {
        match key.state {
            AnimationState::Idle => self.idle.at(key.direction)@,
            AnimationState::Walking => self.walking.at(key.direction)@,
        }
    }

    /// How many frames the animation `key` has; 0 if it is absent.
    pub open spec fn count(&self, key: FrameKey) -> nat {
        if self@.contains_key(key) {
            self@[key].len()
        } else {
            0
        }
    }

    /// Frame `index` of the animation `key`, if there is one.
    pub open spec fn frame_at(&self, key: FrameKey, index: int) -> Option<&F> {
        if self@.contains_key(key) && 0 <= index < self@[key].len() {
            Some(&self@[key][index])
        } else {
            None
        }
    }

    /// Whether no animation is absent.
    pub open spec fn complete(&self) -> bool {
        forall|key: FrameKey| self@.contains_key(key)
    }

    /// A table in which every animation is absent.
    pub fn new() -> (frames: FrameSet<F>)
        ensures
            frames@ == Map::<FrameKey, Seq<F>>::empty(),
    {
        let frames = FrameSet {
            idle: DirectionTable {
                south: Vec::new(),
                south_east: Vec::new(),
                east: Vec::new(),
                north_east: Vec::new(),
                north: Vec::new(),
                north_west: Vec::new(),
                west: Vec::new(),
                south_west: Vec::new(),
            },
            walking: DirectionTable {
                south: Vec::new(),
                south_east: Vec::new(),
                east: Vec::new(),
                north_east: Vec::new(),
                north: Vec::new(),
                north_west: Vec::new(),
                west: Vec::new(),
                south_west: Vec::new(),
            },
        };
        assert(forall|key: FrameKey| frames.list(key).len() == 0);
        assert(frames@ =~= Map::<FrameKey, Seq<F>>::empty());
        frames
    }

    /// Sets the frames of the animation `key`. An empty list is refused and
    /// changes nothing.
    pub fn insert(&mut self, key: FrameKey, list: Vec<F>) -> (accepted: bool)
        ensures
            accepted == (list@.len() > 0),
            accepted ==> final(self)@ == old(self)@.insert(key, list@),
            !accepted ==> *final(self) == *old(self),
    {
        if list.len() == 0 {
            return false;
        }
        let ghost frames = list@;
        match key.state {
            AnimationState::Idle => {
                self.idle.set(key.direction, list);
            },
            AnimationState::Walking => {
                self.walking.set(key.direction, list);
            },
        }
        proof {
            assert(self.list(key) == frames);
            assert forall|other: FrameKey| other != key implies self.list(other) == old(
                self,
            ).list(other) by {
                if other.state == key.state {
                    assert(other.direction != key.direction);
                }
            }
            assert(self@ =~= old(self)@.insert(key, frames));
        }
        true
    }

    /// The frames of the animation `key`, if it is present.
    pub fn get(&self, key: FrameKey) -> (list: Option<&Vec<F>>)
        ensures
            match list {
                Some(list) => self@.contains_key(key) && list@ == self@[key],
                None => !self@.contains_key(key),
            },
    {
        let list = match key.state {
            AnimationState::Idle => self.idle.get(key.direction),
            AnimationState::Walking => self.walking.get(key.direction),
        };
        if list.len() > 0 {
            Some(list)
        } else {
            None
        }
    }

    /// How many frames the animation `key` has; 0 if it is absent.
    pub fn len(&self, key: FrameKey) -> (count: usize)
        ensures
            count == self.count(key),
    {
        match self.get(key) {
            Some(list) => list.len(),
            None => 0,
        }
    }

    /// Frame `index` of the animation `key`; nothing if the animation is
    /// absent or has no such frame.
    pub fn frame(&self, key: FrameKey, index: usize) -> (frame: Option<&F>)
        ensures
            frame == self.frame_at(key, index as int),
    {
        match self.get(key) {
            Some(list) => if index < list.len() {
                Some(&list[index])
            } else {
                None
            },
            None => None,
        }
    }

    /// Whether no animation is absent.
    pub fn is_complete(&self) -> (complete: bool)
        ensures
            complete == self.complete(),
    {
        let directions = [
            Direction::South,
            Direction::SouthEast,
            Direction::East,
            Direction::NorthEast,
            Direction::North,
            Direction::NorthWest,
            Direction::West,
            Direction::SouthWest,
        ];
        let mut i: usize = 0;
        while i < 8
            invariant
                i <= 8,
                directions@ == seq![
                    Direction::South,
                    Direction::SouthEast,
                    Direction::East,
                    Direction::NorthEast,
                    Direction::North,
                    Direction::NorthWest,
                    Direction::West,
                    Direction::SouthWest,
                ],
                forall|j: int|
                    0 <= j < i ==> self@.contains_key(
                        FrameKey { state: AnimationState::Idle, direction: #[trigger] directions@[j] },
                    ),
                forall|j: int|
                    0 <= j < i ==> self@.contains_key(
                        FrameKey {
                            state: AnimationState::Walking,
                            direction: #[trigger] directions@[j],
                        },
                    ),
            decreases 8 - i,
        {
            let direction = directions[i];
            let idle = FrameKey { state: AnimationState::Idle, direction };
            let walking = FrameKey { state: AnimationState::Walking, direction };
            if self.len(idle) == 0 || self.len(walking) == 0 {
                assert(!self@.contains_key(idle) || !self@.contains_key(walking));
                return false;
            }
            i = i + 1;
        }
        proof {
            assert forall|key: FrameKey| self@.contains_key(key) by {
                let j: int = match key.direction {
                    Direction::South => 0,
                    Direction::SouthEast => 1,
                    Direction::East => 2,
                    Direction::NorthEast => 3,
                    Direction::North => 4,
                    Direction::NorthWest => 5,
                    Direction::West => 6,
                    Direction::SouthWest => 7,
                };
                assert(directions@[j] == key.direction);
                match key.state {
                    AnimationState::Idle => {
                        assert(key == FrameKey {
                            state: AnimationState::Idle,
                            direction: directions@[j],
                        });
                    },
                    AnimationState::Walking => {
                        assert(key == FrameKey {
                            state: AnimationState::Walking,
                            direction: directions@[j],
                        });
                    },
                }
            }
        }
        true
    }
}

} // verus!
