//! Status panel: battery and network classification, display texts,
//! and the once-per-second debounce.

use heydm::panel::{BatteryProbe, NetInterface, NetworkStatus, StatusPanel};

fn probe(capacity: Option<&str>, status: Option<&str>) -> BatteryProbe {
    BatteryProbe {
        capacity: capacity.map(|s| s.as_bytes().to_vec()),
        status: status.map(|s| s.as_bytes().to_vec()),
    }
}

fn iface(name: &str, operstate: &str) -> NetInterface {
    NetInterface {
        name: name.as_bytes().to_vec(),
        operstate: operstate.as_bytes().to_vec(),
    }
}

#[test]
fn fresh_panel_shows_no_battery() {
    let panel = StatusPanel::new();
    assert_eq!(panel.battery_percent(), -1);
    assert!(!panel.is_charging());
    assert_eq!(panel.clock_text(), &Vec::<u8>::new());
    assert_eq!(*panel.network_status(), NetworkStatus::Unknown);
}

#[test]
fn no_battery_shows_ac() {
    let mut panel = StatusPanel::new();
    panel.update_with(10, b"clock".to_vec(), None, Some(vec![]));
    assert_eq!(panel.battery_percent(), -1);
    assert_eq!(panel.battery_text(), b"AC".to_vec());
}

#[test]
fn capacity_is_parsed_and_trimmed() {
    let mut panel = StatusPanel::new();
    panel.update_with(10, vec![], Some(probe(Some("87\n"), Some("Discharging\n"))), None);
    assert_eq!(panel.battery_percent(), 87);
    assert!(!panel.is_charging());
}

#[test]
fn capacity_is_clamped_to_percent_range() {
    let mut panel = StatusPanel::new();
    panel.update_with(10, vec![], Some(probe(Some("150"), None)), None);
    assert_eq!(panel.battery_percent(), 100);
    panel.update_with(11, vec![], Some(probe(Some("-5"), None)), None);
    assert_eq!(panel.battery_percent(), 0);
}

#[test]
fn unparsable_capacity_keeps_previous_value() {
    let mut panel = StatusPanel::new();
    panel.update_with(10, vec![], Some(probe(Some("42"), None)), None);
    panel.update_with(11, vec![], Some(probe(Some("garbage"), None)), None);
    assert_eq!(panel.battery_percent(), 42);
}

#[test]
fn charging_status_is_case_insensitive() {
    let mut panel = StatusPanel::new();
    panel.update_with(10, vec![], Some(probe(Some("50"), Some("Charging\n"))), None);
    assert!(panel.is_charging());
    panel.update_with(11, vec![], Some(probe(Some("100"), Some("FULL"))), None);
    assert!(panel.is_charging());
    panel.update_with(12, vec![], Some(probe(Some("99"), Some("Discharging"))), None);
    assert!(!panel.is_charging());
}

#[test]
fn update_is_rate_limited_to_one_per_second() {
    let mut panel = StatusPanel::new();
    panel.update_with(10, b"first".to_vec(), Some(probe(Some("40"), None)), None);
    assert_eq!(panel.battery_percent(), 40);
    // Same second: nothing changes, whatever the readings say.
    panel.update_with(10, b"second".to_vec(), Some(probe(Some("90"), None)), None);
    assert_eq!(panel.battery_percent(), 40);
    assert_eq!(panel.clock_text(), &b"first".to_vec());
    panel.update_with(11, b"second".to_vec(), Some(probe(Some("90"), None)), None);
    assert_eq!(panel.battery_percent(), 90);
    assert_eq!(panel.clock_text(), &b"second".to_vec());
}

#[test]
fn loopback_is_skipped_and_wifi_classified() {
    let mut panel = StatusPanel::new();
    panel.update_with(
        10,
        vec![],
        None,
        Some(vec![iface("lo", "up"), iface("wlan0", "up\n")]),
    );
    assert_eq!(*panel.network_status(), NetworkStatus::WiFi);
    assert_eq!(panel.network_text(), b"WiFi: wlan0".to_vec());
}

#[test]
fn ethernet_prefixes_are_classified() {
    let mut panel = StatusPanel::new();
    panel.update_with(10, vec![], None, Some(vec![iface("eth0", "up")]));
    assert_eq!(*panel.network_status(), NetworkStatus::Ethernet);
    assert_eq!(panel.network_text(), b"Eth: eth0".to_vec());
    panel.update_with(11, vec![], None, Some(vec![iface("ens3", "up")]));
    assert_eq!(*panel.network_status(), NetworkStatus::Ethernet);
}

#[test]
fn down_interfaces_mean_disconnected() {
    let mut panel = StatusPanel::new();
    panel.update_with(
        10,
        vec![],
        None,
        Some(vec![iface("wlan0", "down"), iface("eth0", "dormant")]),
    );
    assert_eq!(*panel.network_status(), NetworkStatus::Disconnected);
    assert_eq!(panel.network_text(), b"Disconnected".to_vec());
}

#[test]
fn unknown_prefix_up_interface_is_skipped() {
    let mut panel = StatusPanel::new();
    panel.update_with(
        10,
        vec![],
        None,
        Some(vec![iface("docker0", "up"), iface("wlp3s0", "up")]),
    );
    assert_eq!(*panel.network_status(), NetworkStatus::WiFi);
    assert_eq!(panel.network_text(), b"WiFi: wlp3s0".to_vec());
}

#[test]
fn failed_scan_means_unknown() {
    let mut panel = StatusPanel::new();
    panel.update_with(10, vec![], None, None);
    assert_eq!(*panel.network_status(), NetworkStatus::Unknown);
    assert_eq!(panel.network_text(), b"Network: ?".to_vec());
}

#[test]
fn battery_text_picks_icon_by_level() {
    let mut panel = StatusPanel::new();
    let cases: &[(&str, &str, &str)] = &[
        ("90", "Discharging", "\u{2588} 90%"),
        ("70", "Discharging", "\u{2593} 70%"),
        ("50", "Discharging", "\u{2592} 50%"),
        ("30", "Discharging", "\u{2591} 30%"),
        ("10", "Discharging", "! 10%"),
        ("55", "Charging", "\u{26a1} 55%"),
        ("100", "Full", "\u{26a1} 100%"),
    ];
    let mut sec = 10i64;
    for (cap, st, expected) in cases {
        panel.update_with(sec, vec![], Some(probe(Some(cap), Some(st))), None);
        assert_eq!(panel.battery_text(), expected.as_bytes().to_vec());
        sec += 1;
    }
}

#[test]
fn panel_click_consumes_left_edge_only() {
    let mut panel = StatusPanel::new();
    assert!(panel.handle_click(50, 10));
    assert!(!panel.handle_click(150, 10));
}
