use traffic_monitor::monitor::gpu::mebibytes;
use traffic_monitor::config::{active_skin_index, builtin_palettes, Color32Cfg, DisplayConfig};
use traffic_monitor::monitor::cpu::{contains_str, first_cpu_sensor, is_cpu_sensor_label, mentions_cpu};
use traffic_monitor::monitor::history::push_bounded;
use traffic_monitor::tray::{event_for_menu_id, icon_rgba, TrayEvent};
use traffic_monitor::utils::format_date;

#[test]
fn color_new_keeps_channels() {
    let c = Color32Cfg::new(1, 2, 3, 4);
    assert_eq!((c.r, c.g, c.b, c.a), (1, 2, 3, 4));
}

#[test]
fn display_default_shows_all_but_graph() {
    let d = DisplayConfig::default();
    assert!(d.show_upload && d.show_download && d.show_cpu && d.show_cpu_temp);
    assert!(d.show_memory && d.show_cpu_bar && d.show_mem_bar && d.show_gpu);
    assert!(d.show_gpu_temp && d.show_vram && d.show_gpu_bar && d.show_units && d.show_percent_sign);
    assert!(!d.show_net_graph);
}

#[test]
fn four_builtin_skins() {
    let p = builtin_palettes();
    let names: Vec<&str> = p.iter().map(|s| s.name.as_str()).collect();
    assert_eq!(names, vec!["深色", "浅色", "绿色矩阵", "蓝色霓虹"]);
    assert_eq!(p[0].background_color, Color32Cfg::new(18, 18, 24, 255));
    assert_eq!(p[1].download_color, Color32Cfg::new(0, 80, 200, 255));
    assert_eq!(p[2].text_color, Color32Cfg::new(0, 255, 80, 255));
    assert_eq!(p[3].border_color, Color32Cfg::new(0, 80, 160, 255));
}

#[test]
fn active_skin_index_clamps() {
    assert_eq!(active_skin_index(0, 4), 0);
    assert_eq!(active_skin_index(3, 4), 3);
    assert_eq!(active_skin_index(9, 4), 3);
    assert_eq!(active_skin_index(usize::MAX, 1), 0);
}

#[test]
fn history_keeps_latest_sixty() {
    let mut h: Vec<u32> = Vec::new();
    for i in 0..100u32 {
        push_bounded(&mut h, i, 60);
        assert!(h.len() <= 60);
    }
    assert_eq!(h, (40..100u32).collect::<Vec<u32>>());
    let mut z: Vec<u32> = vec![];
    push_bounded(&mut z, 7, 0);
    assert!(z.is_empty());
}

#[test]
fn substring_search() {
    assert!(contains_str("amd cpu", "cpu"));
    assert!(contains_str("abc", ""));
    assert!(!contains_str("cp", "cpu"));
    assert!(!contains_str("c p u", "cpu"));
    assert!(contains_str("ccpu", "cpu"));
}

#[test]
fn cpu_sensor_labels() {
    assert!(is_cpu_sensor_label("CPU Package"));
    assert!(is_cpu_sensor_label("k10temp Tctl"));
    assert!(is_cpu_sensor_label("coretemp Package id 0"));
    assert!(!is_cpu_sensor_label("nvme Composite"));
    assert!(!is_cpu_sensor_label("acpitz temp1"));
    assert!(mentions_cpu("cpu"));
    assert!(!mentions_cpu("CPU"));
}

#[test]
fn first_cpu_sensor_skips_cold_and_foreign() {
    let labels = vec!["nvme".to_string(), "CPU".to_string(), "Package id 0".to_string(), "Tctl".to_string()];
    assert_eq!(first_cpu_sensor(&labels, &vec![true, false, true, true]), Some(2));
    assert_eq!(first_cpu_sensor(&labels, &vec![true, false, false, false]), None);
    assert_eq!(first_cpu_sensor(&vec![], &vec![]), None);
}

#[test]
fn menu_ids() {
    let o = "7".to_string();
    let e = "8".to_string();
    assert_eq!(event_for_menu_id(&"7".to_string(), &o, &e), Some(TrayEvent::ShowOptions));
    assert_eq!(event_for_menu_id(&"8".to_string(), &o, &e), Some(TrayEvent::Exit));
    assert_eq!(event_for_menu_id(&"9".to_string(), &o, &e), None);
}

fn icon_by_pixel_rule() -> Vec<u8> {
    const S: u32 = 16;
    let mut rgba = Vec::with_capacity((S * S * 4) as usize);
    for y in 0..S {
        for x in 0..S {
            let border = x == 0 || x == S - 1 || y == 0 || y == S - 1;
            let bar_up = x >= 2 && x <= 6 && y >= S.saturating_sub(2 + (x - 2) * 2);
            let bar_dn = x >= 8 && x <= 13 && y >= 2 && y < 2 + (x - 8);
            let (r, g, b, a) = if border { (60, 60, 60, 255) }
                else if bar_up { (80, 210, 80, 255) }
                else if bar_dn { (80, 150, 255, 255) }
                else { (18, 18, 24, 220) };
            rgba.extend_from_slice(&[r, g, b, a]);
        }
    }
    rgba
}

#[test]
fn icon_pixels() {
    let icon = icon_rgba();
    assert_eq!(icon.len(), 1024);
    assert_eq!(icon, icon_by_pixel_rule());
    assert_eq!(&icon[0..4], &[60, 60, 60, 255]);
    let px = |x: usize, y: usize| icon[(y * 16 + x) * 4..(y * 16 + x) * 4 + 4].to_vec();
    assert_eq!(px(2, 14), vec![80, 210, 80, 255]);
    assert_eq!(px(9, 2), vec![80, 150, 255, 255]);
    assert_eq!(px(7, 7), vec![18, 18, 24, 220]);
}

#[test]
fn dates() {
    for (y, m, d) in [(2024, 3, 7), (1, 1, 1), (0, 12, 31), (12345, 10, 10), (-1, 1, 2), (-12345, 5, 5), (i32::MIN, 1, 1), (i32::MAX, 12, 31)] {
        assert_eq!(format_date(y, m, d), format!("{:04}-{:02}-{:02}", y, m, d));
    }
    assert_eq!(format_date(2024, 3, 7), "2024-03-07");
}

#[test]
fn mebibytes_round_down() {
    assert_eq!(mebibytes(0), 0);
    assert_eq!(mebibytes(1048575), 0);
    assert_eq!(mebibytes(1048576), 1);
    assert_eq!(mebibytes(8589934592), 8192);
    assert_eq!(mebibytes(u64::MAX), 17592186044415);
}
