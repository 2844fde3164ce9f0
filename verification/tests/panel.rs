use traffic_monitor::app::{
    apply_tray_event, left_column, left_size_steps, passthrough_update, right_column,
    right_size_steps, vram_text, PanelRow, SizeStep,
};
use traffic_monitor::config::DisplayConfig;
use traffic_monitor::tray::TrayEvent;
use traffic_monitor::ui::settings_dialog::Tab;
use traffic_monitor::ui::SettingsDialog;

#[test]
fn default_panel_rows() {
    let d = DisplayConfig::default();
    assert_eq!(left_column(&d), vec![PanelRow::Upload { unit: true }, PanelRow::Download { unit: true }]);
    assert_eq!(
        right_column(&d, true, true),
        vec![
            PanelRow::CpuUsage { bar: true, percent: true },
            PanelRow::CpuTemp,
            PanelRow::Memory { bar: true, percent: true },
            PanelRow::GpuUsage { bar: true, percent: true },
            PanelRow::GpuTemp,
            PanelRow::Vram,
        ]
    );
    assert_eq!(
        right_column(&d, false, false),
        vec![
            PanelRow::CpuUsage { bar: true, percent: true },
            PanelRow::CpuTempUnavailable,
            PanelRow::Memory { bar: true, percent: true },
            PanelRow::GpuUnavailable,
        ]
    );
}

#[test]
fn hidden_items_leave_no_rows() {
    let mut d = DisplayConfig::default();
    d.show_upload = false;
    d.show_net_graph = true;
    d.show_cpu = false;
    d.show_mem_bar = false;
    d.show_gpu = false;
    d.show_units = false;
    d.show_percent_sign = false;
    assert_eq!(left_column(&d), vec![PanelRow::Download { unit: false }, PanelRow::NetGraph]);
    assert_eq!(
        right_column(&d, true, true),
        vec![PanelRow::CpuTemp, PanelRow::Memory { bar: false, percent: false }, PanelRow::GpuTemp, PanelRow::Vram]
    );
}

#[test]
fn size_steps_follow_display() {
    let d = DisplayConfig::default();
    assert_eq!(left_size_steps(&d), vec![SizeStep::Row, SizeStep::Row]);
    assert_eq!(
        right_size_steps(&d),
        vec![
            SizeStep::Row, SizeStep::Bar, SizeStep::Row, SizeStep::Row, SizeStep::Bar,
            SizeStep::Row, SizeStep::Bar, SizeStep::Row, SizeStep::Row,
        ]
    );
    let mut e = d;
    e.show_cpu = false;
    e.show_net_graph = true;
    assert_eq!(left_size_steps(&e), vec![SizeStep::Row, SizeStep::Row, SizeStep::Graph]);
    assert_eq!(right_size_steps(&e)[0], SizeStep::Row);
    assert_eq!(right_size_steps(&e).len(), 7);
}

#[test]
fn vram_text_examples() {
    assert_eq!(vram_text(1234, 8192), "1234/8192 MB");
    assert_eq!(vram_text(0, 24576), "0/24576 MB");
    assert_eq!(vram_text(5, 0), "N/A");
}

#[test]
fn passthrough_sent_once() {
    assert_eq!(passthrough_update(None, false), Some(false));
    assert_eq!(passthrough_update(Some(false), false), None);
    assert_eq!(passthrough_update(Some(false), true), Some(true));
    assert_eq!(passthrough_update(Some(true), true), None);
}

#[test]
fn tray_events_open_dialog_or_quit() {
    let mut dlg = SettingsDialog::default();
    assert!(!apply_tray_event(&mut dlg, None));
    assert!(!dlg.open);
    assert!(!apply_tray_event(&mut dlg, Some(TrayEvent::ShowOptions)));
    assert!(dlg.open);
    assert_eq!(dlg.tab(), Tab::General);
    assert!(apply_tray_event(&mut dlg, Some(TrayEvent::Exit)));
}
