pub mod chance;
pub mod controls;
pub mod grids;
pub mod hash;
