//! A toroidal, double-buffered Game of Life engine with verified contracts.

pub mod config;
pub mod double_buffer;
pub mod driver;
pub mod grid;
pub mod laws;
pub mod model;
pub mod rule;
pub mod timer;
pub mod visuals;
