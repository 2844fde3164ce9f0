//! Dialogs.

pub mod settings_dialog;

pub use settings_dialog::SettingsDialog;
