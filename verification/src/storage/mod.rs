//! Host-side bookkeeping of the device vector storages.

pub mod catalog;
pub mod stats;
