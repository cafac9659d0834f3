pub mod coords;
pub mod directions;
pub mod rectangles;

pub use coords::{Coord, ICoord};
pub use directions::{Direction4, Direction8, Rotation};
pub use rectangles::{IRect, RectIter};
