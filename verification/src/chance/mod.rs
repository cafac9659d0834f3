pub mod balance;
pub mod draw;
pub mod picker;
pub mod sums;
pub mod tables;

pub use picker::{PickerError, WeightedPicker};
