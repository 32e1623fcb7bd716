use bodyecho::direction::Direction;
use bodyecho::frames::{AnimationState, DirectionTable, FrameKey, FrameSet};

fn directions() -> [Direction; 8] {
    [
        Direction::South,
        Direction::SouthEast,
        Direction::East,
        Direction::NorthEast,
        Direction::North,
        Direction::NorthWest,
        Direction::West,
        Direction::SouthWest,
    ]
}

fn key(state: AnimationState, direction: Direction) -> FrameKey {
    FrameKey { state, direction }
}

#[test]
fn direction_table_keeps_a_value_for_each_direction() {
    let mut table: DirectionTable<u8> = DirectionTable {
        south: 0,
        south_east: 1,
        east: 2,
        north_east: 3,
        north: 4,
        north_west: 5,
        west: 6,
        south_west: 7,
    };
    let mut expected: u8 = 0;
    for direction in directions() {
        assert_eq!(*table.get(direction), expected);
        expected += 1;
    }
    table.set(Direction::North, 40);
    assert_eq!(*table.get(Direction::North), 40);
    assert_eq!(*table.get(Direction::NorthEast), 3);
    assert_eq!(*table.get(Direction::NorthWest), 5);
}

#[test]
fn new_frame_set_has_no_animation() {
    let frames: FrameSet<u32> = FrameSet::new();
    for direction in directions() {
        assert!(frames.get(key(AnimationState::Idle, direction)).is_none());
        assert!(frames.get(key(AnimationState::Walking, direction)).is_none());
        assert_eq!(frames.len(key(AnimationState::Idle, direction)), 0);
        assert_eq!(frames.frame(key(AnimationState::Walking, direction), 0), None);
    }
    assert!(!frames.is_complete());
}

#[test]
fn insert_sets_the_frames_of_one_animation() {
    let mut frames: FrameSet<&str> = FrameSet::new();
    let walk_east = key(AnimationState::Walking, Direction::East);
    assert!(frames.insert(walk_east, vec!["a", "b", "c"]));
    assert_eq!(frames.len(walk_east), 3);
    assert_eq!(frames.get(walk_east), Some(&vec!["a", "b", "c"]));
    assert_eq!(frames.frame(walk_east, 0), Some(&"a"));
    assert_eq!(frames.frame(walk_east, 2), Some(&"c"));
    assert_eq!(frames.frame(walk_east, 3), None);
    assert_eq!(frames.len(key(AnimationState::Idle, Direction::East)), 0);
    assert_eq!(frames.len(key(AnimationState::Walking, Direction::West)), 0);
}

#[test]
fn insert_replaces_earlier_frames() {
    let mut frames: FrameSet<u32> = FrameSet::new();
    let idle_south = key(AnimationState::Idle, Direction::South);
    assert!(frames.insert(idle_south, vec![1, 2, 3, 4]));
    assert!(frames.insert(idle_south, vec![9]));
    assert_eq!(frames.get(idle_south), Some(&vec![9]));
}

#[test]
fn insert_refuses_an_empty_list() {
    let mut frames: FrameSet<u32> = FrameSet::new();
    let idle_south = key(AnimationState::Idle, Direction::South);
    assert!(!frames.insert(idle_south, Vec::new()));
    assert!(frames.get(idle_south).is_none());
    assert!(frames.insert(idle_south, vec![5, 6]));
    assert!(!frames.insert(idle_south, Vec::new()));
    assert_eq!(frames.get(idle_south), Some(&vec![5, 6]));
}

#[test]
fn frame_set_is_complete_with_all_sixteen_animations() {
    let mut frames: FrameSet<u32> = FrameSet::new();
    for direction in directions() {
        assert!(!frames.is_complete());
        assert!(frames.insert(key(AnimationState::Idle, direction), vec![0, 1, 2, 3]));
        assert!(!frames.is_complete());
        assert!(frames.insert(key(AnimationState::Walking, direction), vec![0, 1, 2, 3, 4, 5]));
    }
    assert!(frames.is_complete());
    for direction in directions() {
        assert_eq!(frames.len(key(AnimationState::Idle, direction)), 4);
        assert_eq!(frames.len(key(AnimationState::Walking, direction)), 6);
    }
}

#[test]
fn frame_set_with_one_animation_absent_is_not_complete() {
    for absent in directions() {
        let mut frames: FrameSet<u32> = FrameSet::new();
        for direction in directions() {
            frames.insert(key(AnimationState::Idle, direction), vec![0]);
            if direction != absent {
                frames.insert(key(AnimationState::Walking, direction), vec![0]);
            }
        }
        assert!(!frames.is_complete());
    }
}
