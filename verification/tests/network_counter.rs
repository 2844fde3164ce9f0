use traffic_monitor::monitor::network::{AdapterSample, TrafficCounter};

fn sample(name: &str, received: u64, transmitted: u64) -> AdapterSample {
    AdapterSample { name: name.to_string(), received, transmitted }
}

#[test]
fn first_refresh_after_start_counts_nothing_new() {
    let start = vec![sample("eth0", 1000, 500), sample("wlan0", 200, 100)];
    let mut c = TrafficCounter::new(&start);
    let t = c.update(&start);
    assert_eq!(t.delta_received, 0);
    assert_eq!(t.delta_transmitted, 0);
    assert_eq!(t.total_received, 1200);
    assert_eq!(t.total_transmitted, 600);
    assert_eq!(t.adapter_name, "All");
}

#[test]
fn growth_of_all_adapters_is_summed() {
    let mut c = TrafficCounter::new(&vec![sample("eth0", 1000, 500), sample("wlan0", 200, 100)]);
    let t = c.update(&vec![sample("eth0", 1500, 700), sample("wlan0", 260, 100)]);
    assert_eq!(t.delta_received, 560);
    assert_eq!(t.delta_transmitted, 200);
    assert_eq!(t.total_received, 1760);
    assert_eq!(t.total_transmitted, 800);
    let again = c.update(&vec![sample("eth0", 1500, 700), sample("wlan0", 260, 100)]);
    assert_eq!(again.delta_received, 0);
    assert_eq!(again.delta_transmitted, 0);
}

#[test]
fn counter_that_goes_back_counts_zero() {
    let mut c = TrafficCounter::new(&vec![sample("eth0", 1000, 500)]);
    let t = c.update(&vec![sample("eth0", 10, 600)]);
    assert_eq!(t.delta_received, 0);
    assert_eq!(t.delta_transmitted, 100);
    let t2 = c.update(&vec![sample("eth0", 30, 600)]);
    assert_eq!(t2.delta_received, 20);
}

#[test]
fn new_adapter_counts_from_its_first_sighting() {
    let mut c = TrafficCounter::new(&vec![sample("eth0", 100, 100)]);
    let t = c.update(&vec![sample("eth0", 150, 100), sample("usb0", 9000, 9000)]);
    assert_eq!(t.delta_received, 50);
    assert_eq!(t.delta_transmitted, 0);
    assert_eq!(t.total_received, 9150);
    let t2 = c.update(&vec![sample("eth0", 150, 100), sample("usb0", 9100, 9001)]);
    assert_eq!(t2.delta_received, 100);
    assert_eq!(t2.delta_transmitted, 1);
}

#[test]
fn selected_adapter_alone_is_counted() {
    let mut c = TrafficCounter::new(&vec![sample("eth0", 100, 100), sample("wlan0", 100, 100)]);
    c.set_adapter(Some("wlan0".to_string()));
    let t = c.update(&vec![sample("eth0", 500, 500), sample("wlan0", 130, 110)]);
    assert_eq!(t.delta_received, 30);
    assert_eq!(t.delta_transmitted, 10);
    assert_eq!(t.total_received, 130);
    assert_eq!(t.total_transmitted, 110);
    assert_eq!(t.adapter_name, "wlan0");
    // eth0 was not recorded while unselected: its growth since start shows up later.
    c.set_adapter(None);
    let t2 = c.update(&vec![sample("eth0", 500, 500), sample("wlan0", 130, 110)]);
    assert_eq!(t2.delta_received, 400);
    assert_eq!(t2.delta_transmitted, 400);
    assert_eq!(t2.adapter_name, "All");
}

#[test]
fn missing_selected_adapter_reads_all_with_nothing_counted() {
    let mut c = TrafficCounter::new(&vec![sample("eth0", 100, 100)]);
    c.set_adapter(Some("wlan9".to_string()));
    let t = c.update(&vec![sample("eth0", 500, 500)]);
    assert_eq!(t.delta_received, 0);
    assert_eq!(t.total_received, 0);
    assert_eq!(t.adapter_name, "All");
}

#[test]
fn totals_fit_detects_overflow() {
    let c = TrafficCounter::new(&vec![]);
    assert!(c.totals_fit(&vec![sample("a", u64::MAX, 0)]));
    assert!(!c.totals_fit(&vec![sample("a", u64::MAX, 0), sample("b", 1, 0)]));
    assert!(!c.totals_fit(&vec![sample("a", 0, u64::MAX), sample("b", 0, 1)]));
    let mut d = TrafficCounter::new(&vec![]);
    d.set_adapter(Some("a".to_string()));
    assert!(d.totals_fit(&vec![sample("a", u64::MAX, 0), sample("b", 1, 0)]));
}

#[test]
fn order_of_adapters_does_not_matter() {
    let start = vec![sample("eth0", 100, 10), sample("wlan0", 50, 5)];
    let mut a = TrafficCounter::new(&start);
    let mut b = TrafficCounter::new(&start);
    let ta = a.update(&vec![sample("eth0", 180, 30), sample("wlan0", 40, 9)]);
    let tb = b.update(&vec![sample("wlan0", 40, 9), sample("eth0", 180, 30)]);
    assert_eq!((ta.delta_received, ta.delta_transmitted), (80, 24));
    assert_eq!((ta.delta_received, ta.delta_transmitted), (tb.delta_received, tb.delta_transmitted));
    assert_eq!((ta.total_received, ta.total_transmitted), (tb.total_received, tb.total_transmitted));
}

#[test]
fn two_refreshes_count_each_adapters_growth() {
    let mut c = TrafficCounter::new(&vec![]);
    let first = c.update(&vec![sample("eth0", 1000, 300), sample("wlan0", 50, 5)]);
    assert_eq!((first.delta_received, first.delta_transmitted), (0, 0));
    let second = c.update(&vec![sample("wlan0", 80, 4), sample("eth0", 1200, 350), sample("tun0", 7, 7)]);
    // eth0 grew by 200/50, wlan0 by 30 and its transmit counter went back, tun0 is new
    assert_eq!((second.delta_received, second.delta_transmitted), (230, 50));
}
