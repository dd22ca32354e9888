//! Memory management utilities.

pub mod buffer_utils;
pub mod memory_utils;
