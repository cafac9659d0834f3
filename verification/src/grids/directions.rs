use crate::grids::coords::ICoord;
use vstd::arithmetic::div_mod::lemma_add_mod_noop;
use vstd::prelude::*;

verus! {

/// Four-way directions, clockwise from north.
#[derive(Debug, Copy, Clone, Eq, PartialEq, Ord, PartialOrd, Hash, Structural)]
pub enum Direction4 {
    North,
    East,
    South,
    West,
}

impl Direction4 {
    /// All the directions, clockwise from north.
    pub const DIRECTIONS: [Direction4; 4] = [
        Direction4::North,
        Direction4::East,
        Direction4::South,
        Direction4::West,
    ];

    /// The place of this direction in the clockwise order, north being 0.
    pub open spec fn index(self) -> int {
        match self {
            Direction4::North => 0,
            Direction4::East => 1,
            Direction4::South => 2,
            Direction4::West => 3,
        }
    }

    /// The direction at a place of the clockwise order.
    pub open spec fn at(i: int) -> Self {
        if i == 0 {
            Direction4::North
        } else if i == 1 {
            Direction4::East
        } else if i == 2 {
            Direction4::South
        } else {
            Direction4::West
        }
    }

    /// This direction after `steps` quarter turns clockwise; a negative number
    /// turns counter-clockwise.
    pub open spec fn turned(self, steps: int) -> Self {
        Self::at((self.index() + steps) % 4)
    }

    /// The step that this direction makes on a grid whose y axis points down.
    pub open spec fn delta(self) -> ICoord {
        match self {
            Direction4::North => ICoord { x: 0, y: -1isize },
            Direction4::East => ICoord { x: 1, y: 0 },
            Direction4::South => ICoord { x: 0, y: 1 },
            Direction4::West => ICoord { x: -1isize, y: 0 },
        }
    }

    /// The steps of all four directions, clockwise from north.
    pub open spec fn all_deltas() -> Seq<ICoord> {
        seq![
            Direction4::North.delta(),
            Direction4::East.delta(),
            Direction4::South.delta(),
            Direction4::West.delta(),
        ]
    }

    /// Turns this direction one step the given way.
    pub fn rotate(self, rot: Rotation) -> (r: Self)
        ensures
            r == self.turned(rot.steps()),
    {
        self.rotate_by(rot.steps_clockwise())
    }

    /// Turns this direction by a number of steps clockwise.
    /// Negative numbers go counter-clockwise.
    pub fn rotate_by(self, steps_clockwise: isize) -> (r: Self)
        ensures
            r == self.turned(steps_clockwise as int),
    {
        let idx: isize = match self {
            Direction4::North => 0,
            Direction4::East => 1,
            Direction4::South => 2,
            Direction4::West => 3,
        };
        let turn: isize = match steps_clockwise.checked_rem_euclid(4) {
            Some(t) => t,
            None => 0,
        };
        proof {
            lemma_add_mod_noop(idx as int, steps_clockwise as int, 4);
        }
        let new_idx: isize = (idx + turn) % 4;
        if new_idx == 0 {
            Direction4::North
        } else if new_idx == 1 {
            Direction4::East
        } else if new_idx == 2 {
            Direction4::South
        } else {
            Direction4::West
        }
    }

    /// The opposite direction.
    pub fn flip(self) -> (r: Self)
        ensures
            r == self.turned(2),
    {
        self.rotate_by(2)
    }

    /// The angle of this direction in quarter turns, clockwise from east, where
    /// the angle of a graphics system with y pointing down is zero.
    pub fn turns_from_east(self) -> (r: u8)
        ensures
            r == (self.index() - 1) % 4,
    {
        match self {
            Direction4::North => 3,
            Direction4::East => 0,
            Direction4::South => 1,
            Direction4::West => 2,
        }
    }

    /// The step that this direction makes, as a coordinate.
    pub fn deltas(self) -> (r: ICoord)
        ensures
            r == self.delta(),
    {
        match self {
            Direction4::North => ICoord { x: 0, y: -1isize },
            Direction4::East => ICoord { x: 1, y: 0 },
            Direction4::South => ICoord { x: 0, y: 1 },
            Direction4::West => ICoord { x: -1isize, y: 0 },
        }
    }

    /// Whether this direction is east or west.
    pub fn is_horizontal(self) -> (r: bool)
        ensures
            r == (self == Direction4::East || self == Direction4::West),
    {
        matches!(self, Direction4::East | Direction4::West)
    }

    /// Whether this direction is north or south.
    pub fn is_vertical(self) -> (r: bool)
        ensures
            r == (self == Direction4::North || self == Direction4::South),
    {
        matches!(self, Direction4::North | Direction4::South)
    }

    /// Turning by `a` steps and then by `b` steps is turning by `a + b` steps.
    pub proof fn lemma_turns_add(self, a: int, b: int)
        ensures
            self.turned(a).turned(b) == self.turned(a + b),
    {
        lemma_add_mod_noop(self.index() + a, b, 4);
        assert(self.turned(a).index() == (self.index() + a) % 4);
        assert(b % 4 == (b % 4) % 4);
        lemma_add_mod_noop((self.index() + a) % 4, b, 4);
    }

    /// Flipping twice gives the direction back, and so do four quarter turns.
    pub proof fn lemma_flip_twice(self)
        ensures
            self.turned(2).turned(2) == self,
            self.turned(4) == self,
            self.turned(0) == self,
    {
    }
}

/// Eight-way directions, clockwise from north.
#[derive(Debug, Copy, Clone, Eq, PartialEq, Ord, PartialOrd, Hash, Structural)]
pub enum Direction8 {
    North,
    NorthEast,
    East,
    SouthEast,
    South,
    SouthWest,
    West,
    NorthWest,
}

impl Direction8 {
    /// All the directions, clockwise from north.
    pub const DIRECTIONS: [Direction8; 8] = [
        Direction8::North,
        Direction8::NorthEast,
        Direction8::East,
        Direction8::SouthEast,
        Direction8::South,
        Direction8::SouthWest,
        Direction8::West,
        Direction8::NorthWest,
    ];

    /// The place of this direction in the clockwise order, north being 0.
    pub open spec fn index(self) -> int {
        match self {
            Direction8::North => 0,
            Direction8::NorthEast => 1,
            Direction8::East => 2,
            Direction8::SouthEast => 3,
            Direction8::South => 4,
            Direction8::SouthWest => 5,
            Direction8::West => 6,
            Direction8::NorthWest => 7,
        }
    }

    /// The direction at a place of the clockwise order.
    pub open spec fn at(i: int) -> Self {
        if i == 0 {
            Direction8::North
        } else if i == 1 {
            Direction8::NorthEast
        } else if i == 2 {
            Direction8::East
        } else if i == 3 {
            Direction8::SouthEast
        } else if i == 4 {
            Direction8::South
        } else if i == 5 {
            Direction8::SouthWest
        } else if i == 6 {
            Direction8::West
        } else {
            Direction8::NorthWest
        }
    }

    /// This direction after `steps` eighth turns clockwise; a negative number
    /// turns counter-clockwise.
    pub open spec fn turned(self, steps: int) -> Self {
        Self::at((self.index() + steps) % 8)
    }

    /// The step that this direction makes on a grid whose y axis points down.
    pub open spec fn delta(self) -> ICoord {
        match self {
            Direction8::North => ICoord { x: 0, y: -1isize },
            Direction8::NorthEast => ICoord { x: 1, y: -1isize },
            Direction8::East => ICoord { x: 1, y: 0 },
            Direction8::SouthEast => ICoord { x: 1, y: 1 },
            Direction8::South => ICoord { x: 0, y: 1 },
            Direction8::SouthWest => ICoord { x: -1isize, y: 1 },
            Direction8::West => ICoord { x: -1isize, y: 0 },
            Direction8::NorthWest => ICoord { x: -1isize, y: -1isize },
        }
    }

    /// The steps of all eight directions, clockwise from north.
    pub open spec fn all_deltas() -> Seq<ICoord> {
        seq![
            Direction8::North.delta(),
            Direction8::NorthEast.delta(),
            Direction8::East.delta(),
            Direction8::SouthEast.delta(),
            Direction8::South.delta(),
            Direction8::SouthWest.delta(),
            Direction8::West.delta(),
            Direction8::NorthWest.delta(),
        ]
    }

    /// Turns this direction one step the given way.
    pub fn rotate(self, rot: Rotation) -> (r: Self)
        ensures
            r == self.turned(rot.steps()),
    {
        self.rotate_by(rot.steps_clockwise())
    }

    /// Turns this direction by a number of steps clockwise.
    /// Negative numbers go counter-clockwise.
    pub fn rotate_by(self, steps_clockwise: isize) -> (r: Self)
        ensures
            r == self.turned(steps_clockwise as int),
    {
        let idx: isize = match self {
            Direction8::North => 0,
            Direction8::NorthEast => 1,
            Direction8::East => 2,
            Direction8::SouthEast => 3,
            Direction8::South => 4,
            Direction8::SouthWest => 5,
            Direction8::West => 6,
            Direction8::NorthWest => 7,
        };
        let turn: isize = match steps_clockwise.checked_rem_euclid(8) {
            Some(t) => t,
            None => 0,
        };
        proof {
            lemma_add_mod_noop(idx as int, steps_clockwise as int, 8);
        }
        let new_idx: isize = (idx + turn) % 8;
        if new_idx == 0 {
            Direction8::North
        } else if new_idx == 1 {
            Direction8::NorthEast
        } else if new_idx == 2 {
            Direction8::East
        } else if new_idx == 3 {
            Direction8::SouthEast
        } else if new_idx == 4 {
            Direction8::South
        } else if new_idx == 5 {
            Direction8::SouthWest
        } else if new_idx == 6 {
            Direction8::West
        } else {
            Direction8::NorthWest
        }
    }

    /// The opposite direction.
    pub fn flip(self) -> (r: Self)
        ensures
            r == self.turned(4),
    {
        self.rotate_by(4)
    }

    /// The angle of this direction in eighth turns, clockwise from east, where
    /// the angle of a graphics system with y pointing down is zero.
    pub fn turns_from_east(self) -> (r: u8)
        ensures
            r == (self.index() - 2) % 8,
    {
        match self {
            Direction8::North => 6,
            Direction8::NorthEast => 7,
            Direction8::East => 0,
            Direction8::SouthEast => 1,
            Direction8::South => 2,
            Direction8::SouthWest => 3,
            Direction8::West => 4,
            Direction8::NorthWest => 5,
        }
    }

    /// The step that this direction makes, as a coordinate.
    pub fn deltas(self) -> (r: ICoord)
        ensures
            r == self.delta(),
    {
        match self {
            Direction8::North => ICoord { x: 0, y: -1isize },
            Direction8::NorthEast => ICoord { x: 1, y: -1isize },
            Direction8::East => ICoord { x: 1, y: 0 },
            Direction8::SouthEast => ICoord { x: 1, y: 1 },
            Direction8::South => ICoord { x: 0, y: 1 },
            Direction8::SouthWest => ICoord { x: -1isize, y: 1 },
            Direction8::West => ICoord { x: -1isize, y: 0 },
            Direction8::NorthWest => ICoord { x: -1isize, y: -1isize },
        }
    }

    /// Flipping twice gives the direction back, and so do eight eighth turns.
    pub proof fn lemma_flip_twice(self)
        ensures
            self.turned(4).turned(4) == self,
            self.turned(8) == self,
            self.turned(0) == self,
    {
    }
}

/// The two ways to turn. Neither is an angle by itself, only in relation to a direction.
#[derive(Debug, Copy, Clone, Eq, PartialEq, Hash, Structural)]
pub enum Rotation {
    Clockwise,
    CounterClockwise,
}

impl Rotation {
    /// The number of steps clockwise that this turn makes.
    pub open spec fn steps(self) -> int {
        match self {
            Rotation::Clockwise => 1,
            Rotation::CounterClockwise => -1,
        }
    }

    /// The number of steps clockwise that this turn makes: 1 or -1.
    pub fn steps_clockwise(&self) -> (r: isize)
        ensures
            r == self.steps(),
    {
        match self {
            Rotation::Clockwise => 1,
            Rotation::CounterClockwise => -1,
        }
    }
}

} // verus!
