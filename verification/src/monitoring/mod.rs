//! Monitoring: VRAM bookkeeping and performance statistics.

pub mod performance;
pub mod vram_monitor;
