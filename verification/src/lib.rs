//! Verified core of a desktop traffic monitor: the formatting of byte
//! counts, the per-adapter traffic accounting, the bounded sample
//! histories, the layout of the floating panel, the tray menu and icon,
//! and the settings dialog's state machine.

pub mod text;
pub mod monitor;
pub mod config;
pub mod tray;
pub mod ui;
pub mod app;
pub mod utils;
