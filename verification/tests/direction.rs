use bodyecho::direction::Direction;

/// The sector of an angle in degrees, by the half-open convention.
fn sector_of_angle(degrees: f64) -> Direction {
    if degrees >= -22.5 && degrees < 22.5 {
        Direction::East
    } else if degrees >= 22.5 && degrees < 67.5 {
        Direction::NorthEast
    } else if degrees >= 67.5 && degrees < 112.5 {
        Direction::North
    } else if degrees >= 112.5 && degrees < 157.5 {
        Direction::NorthWest
    } else if degrees >= 157.5 || degrees < -157.5 {
        Direction::West
    } else if degrees >= -157.5 && degrees < -112.5 {
        Direction::SouthWest
    } else if degrees >= -112.5 && degrees < -67.5 {
        Direction::South
    } else {
        Direction::SouthEast
    }
}

fn counter_clockwise(direction: Direction) -> Direction {
    match direction {
        Direction::East => Direction::NorthEast,
        Direction::NorthEast => Direction::North,
        Direction::North => Direction::NorthWest,
        Direction::NorthWest => Direction::West,
        Direction::West => Direction::SouthWest,
        Direction::SouthWest => Direction::South,
        Direction::South => Direction::SouthEast,
        Direction::SouthEast => Direction::East,
    }
}

#[test]
fn unit_vectors_face_their_compass_direction() {
    assert_eq!(Direction::from_movement(0, 1), Direction::North);
    assert_eq!(Direction::from_movement(1, 1), Direction::NorthEast);
    assert_eq!(Direction::from_movement(1, 0), Direction::East);
    assert_eq!(Direction::from_movement(1, -1), Direction::SouthEast);
    assert_eq!(Direction::from_movement(0, -1), Direction::South);
    assert_eq!(Direction::from_movement(-1, -1), Direction::SouthWest);
    assert_eq!(Direction::from_movement(-1, 0), Direction::West);
    assert_eq!(Direction::from_movement(-1, 1), Direction::NorthWest);
}

#[test]
fn zero_vector_faces_east() {
    assert_eq!(Direction::from_movement(0, 0), Direction::East);
}

#[test]
fn vectors_close_to_the_edge_at_22_5_degrees() {
    // 22.62 and 22.504 degrees lie past the edge, 22.48 and 22.499 before it.
    assert_eq!(Direction::from_movement(12, 5), Direction::NorthEast);
    assert_eq!(Direction::from_movement(70, 29), Direction::NorthEast);
    assert_eq!(Direction::from_movement(29, 12), Direction::East);
    assert_eq!(Direction::from_movement(169, 70), Direction::East);
    assert_eq!(Direction::from_movement(12, -5), Direction::SouthEast);
    assert_eq!(Direction::from_movement(29, -12), Direction::East);
}

#[test]
fn vectors_close_to_the_edge_at_67_5_degrees() {
    assert_eq!(Direction::from_movement(5, 12), Direction::NorthEast);
    assert_eq!(Direction::from_movement(29, 70), Direction::NorthEast);
    assert_eq!(Direction::from_movement(12, 29), Direction::North);
    assert_eq!(Direction::from_movement(70, 169), Direction::North);
    assert_eq!(Direction::from_movement(-12, 29), Direction::North);
    assert_eq!(Direction::from_movement(-5, 12), Direction::NorthWest);
}

#[test]
fn vectors_close_to_the_edges_of_west() {
    assert_eq!(Direction::from_movement(-29, 12), Direction::West);
    assert_eq!(Direction::from_movement(-12, 5), Direction::NorthWest);
    assert_eq!(Direction::from_movement(-29, -12), Direction::West);
    assert_eq!(Direction::from_movement(-12, -5), Direction::SouthWest);
    assert_eq!(Direction::from_movement(-5, -12), Direction::SouthWest);
    assert_eq!(Direction::from_movement(-12, -29), Direction::South);
    assert_eq!(Direction::from_movement(12, -29), Direction::South);
    assert_eq!(Direction::from_movement(5, -12), Direction::SouthEast);
}

#[test]
fn from_movement_agrees_with_the_angle_on_a_grid() {
    let mut x: i32 = -40;
    while x <= 40 {
        let mut y: i32 = -40;
        while y <= 40 {
            if x != 0 || y != 0 {
                let degrees = (y as f64).atan2(x as f64).to_degrees();
                assert_eq!(Direction::from_movement(x, y), sector_of_angle(degrees), "({x}, {y})");
            }
            y += 1;
        }
        x += 1;
    }
}

#[test]
fn from_movement_takes_the_whole_range_of_its_arguments() {
    assert_eq!(Direction::from_movement(i32::MIN, i32::MIN), Direction::SouthWest);
    assert_eq!(Direction::from_movement(i32::MAX, i32::MAX), Direction::NorthEast);
    assert_eq!(Direction::from_movement(i32::MIN, i32::MAX), Direction::NorthWest);
    assert_eq!(Direction::from_movement(i32::MAX, i32::MIN), Direction::SouthEast);
    assert_eq!(Direction::from_movement(i32::MAX, 1), Direction::East);
    assert_eq!(Direction::from_movement(i32::MIN, -1), Direction::West);
    assert_eq!(Direction::from_movement(1, i32::MAX), Direction::North);
    assert_eq!(Direction::from_movement(-1, i32::MIN), Direction::South);
}

#[test]
fn stretching_a_vector_keeps_its_direction() {
    let vectors: [(i32, i32); 6] = [(3, 1), (2, 5), (-7, 3), (-4, -9), (6, -5), (0, -2)];
    for (x, y) in vectors {
        let facing = Direction::from_movement(x, y);
        let mut k: i32 = 1;
        while k <= 1000 {
            assert_eq!(Direction::from_movement(k * x, k * y), facing);
            k *= 10;
        }
    }
}

#[test]
fn an_eighth_turn_leads_to_the_next_direction() {
    let mut x: i32 = -9;
    while x <= 9 {
        let mut y: i32 = -9;
        while y <= 9 {
            if x != 0 || y != 0 {
                assert_eq!(
                    Direction::from_movement(x - y, x + y),
                    counter_clockwise(Direction::from_movement(x, y))
                );
            }
            y += 1;
        }
        x += 1;
    }
}
