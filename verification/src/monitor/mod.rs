//! What the monitors compute from the samples that the system gives them.

pub mod cpu;
pub mod gpu;
pub mod history;
pub mod memory;
pub mod network;
