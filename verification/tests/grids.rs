use cogs_gamedev::grids::{Coord, Direction4, Direction8, ICoord, IRect, RectIter, Rotation};

#[test]
fn coord_parts_and_index() {
    let c = Coord::new(3, 4);
    assert_eq!(c.x, 3);
    assert_eq!(c.y, 4);
    assert_eq!(c.to_2d_idx(10), 43);
    assert_eq!(Coord::new(0, 0).to_2d_idx(7), 0);
    assert_eq!(c.to_icoord(), ICoord::new(3, 4));
    assert_eq!(ICoord::from(c), ICoord { x: 3, y: 4 });
}

#[test]
fn coord_neighbors4() {
    assert_eq!(
        Coord::new(5, 7).neighbors4(),
        &[Coord::new(5, 6), Coord::new(6, 7), Coord::new(5, 8), Coord::new(4, 7)]
    );
    assert_eq!(
        Coord::new(0, 5).neighbors4(),
        &[Coord::new(0, 4), Coord::new(1, 5), Coord::new(0, 6)]
    );
    assert_eq!(Coord::new(0, 0).neighbors4(), &[Coord::new(1, 0), Coord::new(0, 1)]);
}

#[test]
fn coord_neighbors8() {
    assert_eq!(
        Coord::new(5, 7).neighbors8(),
        [
            Coord::new(5, 6),
            Coord::new(6, 6),
            Coord::new(6, 7),
            Coord::new(6, 8),
            Coord::new(5, 8),
            Coord::new(4, 8),
            Coord::new(4, 7),
            Coord::new(4, 6),
        ]
    );
    assert_eq!(
        Coord::new(0, 5).neighbors8(),
        &[
            Coord::new(0, 4),
            Coord::new(1, 4),
            Coord::new(1, 5),
            Coord::new(1, 6),
            Coord::new(0, 6),
        ]
    );
    assert_eq!(
        Coord::new(0, 0).neighbors8(),
        &[Coord::new(1, 0), Coord::new(1, 1), Coord::new(0, 1)]
    );
}

#[test]
fn coord_arithmetic() {
    assert_eq!(Coord::new(1, 2) + Coord::new(10, 20), Coord::new(11, 22));
    assert_eq!(Coord::new(3, 4) * 5, Coord::new(15, 20));
    let mut c = Coord::new(1, 1);
    c += Coord::new(2, 3);
    assert_eq!(c, Coord::new(3, 4));
    c *= 2;
    assert_eq!(c, Coord::new(6, 8));
}

#[test]
fn icoord_quadrants() {
    assert_eq!(ICoord::new(4, 5).quadrant(), 1);
    assert_eq!(ICoord::new(-3, 2).quadrant(), 2);
    assert_eq!(ICoord::new(-3, -2).quadrant(), 3);
    assert_eq!(ICoord::new(0, -8).quadrant(), 4);
    assert_eq!(ICoord::new(0, 0).quadrant(), 1);
}

#[test]
fn icoord_to_coord() {
    assert_eq!(ICoord::new(4, 5).to_coord(), Some(Coord::new(4, 5)));
    assert_eq!(ICoord::new(0, 0).to_coord(), Some(Coord::new(0, 0)));
    assert_eq!(ICoord::new(-1, 5).to_coord(), None);
    assert_eq!(ICoord::new(4, -1).to_coord(), None);
}

#[test]
fn icoord_neighbors() {
    assert_eq!(
        ICoord::new(5, 7).neighbors4(),
        [ICoord::new(5, 6), ICoord::new(6, 7), ICoord::new(5, 8), ICoord::new(4, 7)]
    );
    assert_eq!(
        ICoord::new(5, 7).neighbors8(),
        [
            ICoord::new(5, 6),
            ICoord::new(6, 6),
            ICoord::new(6, 7),
            ICoord::new(6, 8),
            ICoord::new(5, 8),
            ICoord::new(4, 8),
            ICoord::new(4, 7),
            ICoord::new(4, 6),
        ]
    );
    let origin = ICoord::new(-7, -12);
    assert_eq!(
        origin.neighbors4()[..],
        Direction4::DIRECTIONS.iter().map(|dir| origin + *dir).collect::<Vec<_>>()[..],
    );
    assert_eq!(
        origin.neighbors8()[..],
        Direction8::DIRECTIONS.iter().map(|dir| origin + *dir).collect::<Vec<_>>()[..],
    );
}

#[test]
fn icoord_arithmetic() {
    assert_eq!(ICoord::new(1, -2) + ICoord::new(-10, 20), ICoord::new(-9, 18));
    assert_eq!(ICoord::new(3, -4) * -5, ICoord::new(-15, 20));
    assert_eq!(ICoord::new(0, 0) + Direction4::North, ICoord::new(0, -1));
    assert_eq!(ICoord::new(0, 0) + Direction8::SouthWest, ICoord::new(-1, 1));
    let mut c = ICoord::new(1, 1);
    c += ICoord::new(-2, 3);
    assert_eq!(c, ICoord::new(-1, 4));
    c += Direction4::East;
    assert_eq!(c, ICoord::new(0, 4));
    c += Direction8::NorthWest;
    assert_eq!(c, ICoord::new(-1, 3));
    c *= -2;
    assert_eq!(c, ICoord::new(2, -6));
}

#[test]
fn direction4_turns() {
    assert_eq!(Direction4::North.rotate(Rotation::Clockwise), Direction4::East);
    assert_eq!(Direction4::North.rotate(Rotation::CounterClockwise), Direction4::West);
    assert_eq!(Direction4::North.rotate_by(1), Direction4::East);
    assert_eq!(Direction4::North.rotate_by(2), Direction4::South);
    assert_eq!(Direction4::North.rotate_by(-1), Direction4::West);
    assert_eq!(Direction4::North.rotate_by(5).rotate_by(-11), Direction4::South);
    assert_eq!(Direction4::West.rotate_by(isize::MAX), Direction4::South);
    assert_eq!(Direction4::West.rotate_by(isize::MIN), Direction4::West);
    assert_eq!(Direction4::North.flip(), Direction4::South);
    assert_eq!(Direction4::West.flip(), Direction4::East);
    assert_eq!(Direction4::East.flip().flip(), Direction4::East);
}

#[test]
fn direction4_steps() {
    assert_eq!(Direction4::North.deltas(), ICoord { x: 0, y: -1 });
    assert_eq!(Direction4::East.deltas(), ICoord { x: 1, y: 0 });
    assert_eq!(Direction4::South.deltas(), ICoord { x: 0, y: 1 });
    assert_eq!(Direction4::West.deltas(), ICoord { x: -1, y: 0 });
    assert!(Direction4::East.is_horizontal());
    assert!(Direction4::West.is_horizontal());
    assert!(!Direction4::South.is_horizontal());
    assert!(Direction4::North.is_vertical());
    assert!(Direction4::South.is_vertical());
    assert!(!Direction4::West.is_vertical());
    assert_eq!(Direction4::DIRECTIONS, [Direction4::North, Direction4::East, Direction4::South, Direction4::West]);
}

#[test]
fn direction8_turns() {
    assert_eq!(Direction8::NorthEast.rotate(Rotation::Clockwise), Direction8::East);
    assert_eq!(Direction8::South.rotate(Rotation::CounterClockwise), Direction8::SouthEast);
    assert_eq!(Direction8::North.rotate_by(1), Direction8::NorthEast);
    assert_eq!(Direction8::North.rotate_by(2), Direction8::East);
    assert_eq!(Direction8::North.rotate_by(-1), Direction8::NorthWest);
    assert_eq!(Direction8::North.rotate_by(4), Direction8::South);
    assert_eq!(Direction8::North.rotate_by(5).rotate_by(-11), Direction8::East);
    assert_eq!(Direction8::North.flip(), Direction8::South);
    assert_eq!(Direction8::West.flip(), Direction8::East);
    assert_eq!(Direction8::SouthWest.flip(), Direction8::NorthEast);
    assert_eq!(Direction8::East.flip().flip(), Direction8::East);
}

#[test]
fn direction8_steps() {
    assert_eq!(Direction8::East.deltas(), ICoord { x: 1, y: 0 });
    assert_eq!(Direction8::NorthWest.deltas(), ICoord { x: -1, y: -1 });
    assert_eq!(Direction8::SouthEast.deltas(), ICoord { x: 1, y: 1 });
    assert_eq!(Direction8::NorthEast.deltas(), ICoord { x: 1, y: -1 });
    assert_eq!(Direction8::SouthWest.deltas(), ICoord { x: -1, y: 1 });
    assert_eq!(Rotation::Clockwise.steps_clockwise(), 1);
    assert_eq!(Rotation::CounterClockwise.steps_clockwise(), -1);
}

#[test]
fn rect_edges_and_area() {
    let r = IRect::new(-2, 3, 4, 5);
    assert_eq!(r.left, -2);
    assert_eq!(r.top, 3);
    assert_eq!(r.right(), 1);
    assert_eq!(r.bottom(), 7);
    assert_eq!(r.area(), 20);
    assert!(r.contains(ICoord::new(-2, 3)));
    assert!(r.contains(ICoord::new(1, 7)));
    assert!(r.contains(ICoord::new(0, 5)));
    assert!(!r.contains(ICoord::new(2, 5)));
    assert!(!r.contains(ICoord::new(-3, 5)));
    assert!(!r.contains(ICoord::new(0, 2)));
    assert!(!r.contains(ICoord::new(0, 8)));
    let edge = IRect::new(isize::MAX - 1, 0, 2, 1);
    assert!(edge.contains(ICoord::new(isize::MAX, 0)));
}

#[test]
fn rect_centered_and_shifted() {
    assert_eq!(IRect::centered(ICoord::new(10, 10), 4, 6), IRect::new(8, 7, 4, 6));
    assert_eq!(IRect::centered(ICoord::new(0, 0), 5, 1), IRect::new(-2, 0, 5, 1));
    let r = IRect::new(1, 2, 3, 4);
    assert_eq!(r.shifted(ICoord::new(-5, 5)), IRect::new(-4, 7, 3, 4));
    assert_eq!(r + ICoord::new(1, 1), IRect::new(2, 3, 3, 4));
}

#[test]
fn rect_walk_is_in_reading_order() {
    let r = IRect::new(-1, 4, 3, 2);
    let mut walk = r.contained_coords();
    let mut seen = Vec::new();
    while let Some(pos) = walk.next() {
        seen.push(pos);
    }
    assert_eq!(
        seen,
        vec![
            ICoord::new(-1, 4),
            ICoord::new(0, 4),
            ICoord::new(1, 4),
            ICoord::new(-1, 5),
            ICoord::new(0, 5),
            ICoord::new(1, 5),
        ]
    );
    assert_eq!(walk.next(), None);
    assert_eq!(walk.next(), None);
}

#[test]
fn rect_walk_of_an_empty_rect() {
    let mut flat = RectIter::new(IRect::new(0, 0, 5, 0));
    assert_eq!(flat.next(), None);
    let mut thin = IRect::new(0, 0, 0, 5).contained_coords();
    assert_eq!(thin.next(), None);
    let mut top = RectIter::new(IRect::new(isize::MAX, isize::MAX, 1, 1));
    assert_eq!(top.next(), Some(ICoord::new(isize::MAX, isize::MAX)));
    assert_eq!(top.next(), None);
}

#[test]
fn coord_try_from_icoord() {
    assert_eq!(Coord::try_from(ICoord::new(4, 5)).ok(), Some(Coord::new(4, 5)));
    assert_eq!(
        Coord::try_from(ICoord::new(isize::MAX, 0)).ok(),
        Some(Coord::new(isize::MAX as usize, 0))
    );
    assert!(Coord::try_from(ICoord::new(-4, 5)).is_err());
    assert!(Coord::try_from(ICoord::new(4, -5)).is_err());
    assert!(Coord::try_from(ICoord::new(isize::MIN, isize::MIN)).is_err());
}

#[test]
fn coords_as_text() {
    assert_eq!(Coord::new(3, 4).to_string(), "(3, 4)");
    assert_eq!(ICoord::new(-3, 0).to_string(), "(-3, 0)");
}

#[test]
fn directions_as_turns_from_east() {
    assert_eq!(Direction4::East.turns_from_east(), 0);
    assert_eq!(Direction4::South.turns_from_east(), 1);
    assert_eq!(Direction4::West.turns_from_east(), 2);
    assert_eq!(Direction4::North.turns_from_east(), 3);
    assert_eq!(Direction8::East.turns_from_east(), 0);
    assert_eq!(Direction8::SouthEast.turns_from_east(), 1);
    assert_eq!(Direction8::West.turns_from_east(), 4);
    assert_eq!(Direction8::North.turns_from_east(), 6);
    assert_eq!(Direction8::NorthEast.turns_from_east(), 7);
    let north = Direction4::North.turns_from_east() as f32 * std::f32::consts::TAU / 4.0;
    assert!((north - (std::f32::consts::TAU / 4.0 * 3.0)).abs() < 1e-10);
    let southeast = Direction8::SouthEast.turns_from_east() as f32 * std::f32::consts::TAU / 8.0;
    assert!((southeast - (std::f32::consts::TAU / 8.0)).abs() < 1e-10);
}
