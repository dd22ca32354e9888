//! Utility functions for Hive GPU.

pub mod benchmark;
pub mod clock;
pub mod fixed_point;
pub mod memory;
pub mod rounding;
pub mod text;
pub mod text_search;
pub mod timing;

pub use memory::{buffer_utils, memory_utils};
