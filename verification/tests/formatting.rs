use traffic_monitor::monitor::memory::format_memory;
use traffic_monitor::monitor::network::format_bytes;

fn bytes_by_float(bytes: u64) -> String {
    if bytes >= 1024 * 1024 * 1024 * 1024 {
        format!("{:.2} TB", bytes as f64 / (1024.0_f64.powi(4)))
    } else if bytes >= 1024 * 1024 * 1024 {
        format!("{:.2} GB", bytes as f64 / (1024.0_f64.powi(3)))
    } else if bytes >= 1024 * 1024 {
        format!("{:.2} MB", bytes as f64 / (1024.0_f64.powi(2)))
    } else if bytes >= 1024 {
        format!("{:.1} KB", bytes as f64 / 1024.0)
    } else {
        format!("{} B", bytes)
    }
}

fn memory_by_float(bytes: u64) -> String {
    const GB: u64 = 1024 * 1024 * 1024;
    const MB: u64 = 1024 * 1024;
    if bytes >= GB {
        format!("{:.1} GB", bytes as f64 / GB as f64)
    } else {
        format!("{:.0} MB", bytes as f64 / MB as f64)
    }
}

fn samples() -> Vec<u64> {
    let mut v: Vec<u64> = vec![
        0, 1, 9, 10, 99, 100, 1023, 1024, 1025, 1075, 1076, 1126, 1127, 1536,
        1048575, 1048576, 1053818, 1179648, 1184890, 1073741823, 1073741824,
        1207959552, 1099511627775, 1099511627776, 1236950581248,
        9007199254740991, 9007199254740992, 9007199254740993, 9007199254740995,
        u64::MAX, u64::MAX - 1, u64::MAX / 2, 524288, 1572864, 2621440,
        1610612736, 1664299827, 1664299828,
    ];
    let mut x: u64 = 0x9E37_79B9_7F4A_7C15;
    for _ in 0..20000 {
        x = x.wrapping_mul(6364136223846793005).wrapping_add(1442695040888963407);
        let shift = (x >> 58) as u32;
        v.push(x >> shift);
    }
    for k in 0..64u32 {
        let p = 1u64 << k;
        v.push(p);
        v.push(p - 1);
        v.push(p.wrapping_add(p / 2));
        v.push(p.wrapping_add(p / 8));
    }
    v
}

#[test]
fn format_bytes_matches_float_formatting() {
    for b in samples() {
        assert_eq!(format_bytes(b), bytes_by_float(b), "bytes = {}", b);
    }
}

#[test]
fn format_memory_matches_float_formatting() {
    for b in samples() {
        assert_eq!(format_memory(b), memory_by_float(b), "bytes = {}", b);
    }
}

#[test]
fn format_bytes_examples() {
    assert_eq!(format_bytes(0), "0 B");
    assert_eq!(format_bytes(1023), "1023 B");
    assert_eq!(format_bytes(1024), "1.0 KB");
    assert_eq!(format_bytes(1536), "1.5 KB");
    assert_eq!(format_bytes(1048576), "1.00 MB");
    assert_eq!(format_bytes(1179648), "1.12 MB");
    assert_eq!(format_bytes(1073741824), "1.00 GB");
    assert_eq!(format_bytes(1099511627776), "1.00 TB");
    assert_eq!(format_bytes(u64::MAX), "16777216.00 TB");
}

#[test]
fn format_memory_examples() {
    assert_eq!(format_memory(0), "0 MB");
    assert_eq!(format_memory(524288), "0 MB");
    assert_eq!(format_memory(1572864), "2 MB");
    assert_eq!(format_memory(2621440), "2 MB");
    assert_eq!(format_memory(1073741824), "1.0 GB");
    assert_eq!(format_memory(17179869184), "16.0 GB");
}
