use traffic_monitor::ui::settings_dialog::{DialogAction, DialogEvent, Tab};
use traffic_monitor::ui::SettingsDialog;

#[test]
fn default_dialog_is_closed_on_general() {
    let d = SettingsDialog::default();
    assert!(!d.open);
    assert_eq!(d.tab(), Tab::General);
    assert!(d.has_buttons());
}

#[test]
fn closed_dialog_ignores_events() {
    let mut d = SettingsDialog::default();
    assert_eq!(d.handle(DialogEvent::SaveClicked), DialogAction::Nothing);
    assert_eq!(d.handle(DialogEvent::SelectTab(Tab::Skin)), DialogAction::Nothing);
    assert_eq!(d.tab(), Tab::General);
    assert!(!d.open);
}

#[test]
fn save_saves_and_closes() {
    let mut d = SettingsDialog::default();
    d.set_open(true);
    assert_eq!(d.handle(DialogEvent::SelectTab(Tab::Network)), DialogAction::Nothing);
    assert_eq!(d.tab(), Tab::Network);
    assert_eq!(d.handle(DialogEvent::SaveClicked), DialogAction::SaveConfig);
    assert!(!d.open);
    assert_eq!(d.tab(), Tab::Network);
}

#[test]
fn close_button_and_window_close() {
    let mut d = SettingsDialog::default();
    d.set_open(true);
    assert_eq!(d.handle(DialogEvent::CloseClicked), DialogAction::Nothing);
    assert!(!d.open);
    d.set_open(true);
    assert_eq!(d.handle(DialogEvent::CloseRequested), DialogAction::Nothing);
    assert!(!d.open);
}

#[test]
fn about_tab_has_no_buttons() {
    let mut d = SettingsDialog::default();
    d.set_open(true);
    d.handle(DialogEvent::SelectTab(Tab::About));
    assert!(!d.has_buttons());
    assert_eq!(d.handle(DialogEvent::SaveClicked), DialogAction::Nothing);
    assert!(d.open);
    assert_eq!(d.handle(DialogEvent::CloseClicked), DialogAction::Nothing);
    assert!(d.open);
    assert_eq!(d.handle(DialogEvent::CloseRequested), DialogAction::Nothing);
    assert!(!d.open);
}
