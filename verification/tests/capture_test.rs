use rustsniffer::capture::interface::{select_interface, InterfaceError, InterfaceInfo};
use rustsniffer::capture::sniffer::{progress_due, CaptureConfig, CaptureStats, Sniffer, StopReason};

fn config(count: u64, duration: u64) -> CaptureConfig {
    CaptureConfig {
        interface: "eth0".to_string(),
        filter: None,
        promiscuous: true,
        count,
        duration,
        buffer_size: 2 * 1024 * 1024,
    }
}

fn iface(name: &str, description: &str) -> InterfaceInfo {
    InterfaceInfo { name: name.to_string(), description: description.to_string(), addresses: vec![] }
}

#[test]
fn new_sniffer_starts_empty() {
    let s = Sniffer::new(config(0, 0));
    let st = s.stats();
    assert_eq!(st.total_packets, 0);
    assert_eq!(st.total_bytes, 0);
    assert_eq!(st.dropped_packets, 0);
    assert_eq!(st.end_ms, None);
    assert_eq!(s.sampling(), None);
    assert_eq!(s.config().interface, "eth0");
    let d = CaptureStats::default();
    assert_eq!(d.total_packets, 0);
}

#[test]
fn stop_reasons_in_order() {
    let mut s = Sniffer::new(config(2, 5));
    s.begin(1_000);
    assert_eq!(s.stop_reason(false, 1_000), Some(StopReason::Interrupted));
    assert_eq!(s.stop_reason(true, 1_000), None);
    assert_eq!(s.stop_reason(true, 5_999), None);
    assert_eq!(s.stop_reason(true, 6_000), Some(StopReason::DurationReached));
    assert!(s.on_packet(100, 1_100));
    assert!(s.on_packet(60, 1_200));
    assert_eq!(s.stop_reason(true, 1_300), Some(StopReason::CountReached));
    assert_eq!(s.stats().total_packets, 2);
    assert_eq!(s.stats().total_bytes, 160);
}

#[test]
fn unlimited_capture_never_stops_by_itself() {
    let mut s = Sniffer::new(config(0, 0));
    s.begin(0);
    for i in 0..1000u64 {
        assert!(s.on_packet(1, i));
    }
    assert_eq!(s.stop_reason(true, u64::MAX), None);
    assert_eq!(s.stop_reason(false, 0), Some(StopReason::Interrupted));
}

#[test]
fn errors_and_finish_are_counted() {
    let mut s = Sniffer::new(config(0, 0));
    s.begin(10);
    s.on_capture_error();
    s.on_capture_error();
    s.finish(99);
    assert_eq!(s.stats().dropped_packets, 2);
    assert_eq!(s.stats().start_ms, 10);
    assert_eq!(s.stats().end_ms, Some(99));
    assert_eq!(s.stats().total_packets, 0);
}

#[test]
fn heavy_traffic_turns_sampling_on() {
    let mut s = Sniffer::new(config(0, 0));
    s.begin(0);
    // 250 000 packets within the first second: before the once-a-second rate evaluation.
    for _ in 0..249_999u64 {
        assert!(s.on_packet(1, 500));
    }
    assert_eq!(s.sampling(), None);
    // The 250 000th packet arrives at 1 s: the rate evaluation sees 250 000 pkt/s.
    let forwarded = s.on_packet(1, 1_000);
    assert_eq!(s.sampling(), Some(3));
    // Packet 250 000 is not a multiple of 3, so it is held back.
    assert!(!forwarded);
    assert!(!s.on_packet(1, 1_001)); // 250 001
    assert!(s.on_packet(1, 1_002)); // 250 002 = 3 * 83 334
    // Sampling stays on once on.
    assert!(s.sampling().is_some());
    s.on_packet(1, 900_000);
    assert!(s.sampling().is_some());
}

#[test]
fn light_traffic_is_not_sampled() {
    let mut s = Sniffer::new(config(0, 0));
    s.begin(0);
    for t in 0..50u64 {
        assert!(s.on_packet(64, t * 100));
    }
    assert_eq!(s.sampling(), None);
    assert_eq!(s.stats().total_bytes, 50 * 64);
}

#[test]
fn select_named_interface() {
    let list = vec![iface("lo", "Loopback"), iface("eth0", "Ethernet")];
    assert_eq!(select_interface(Some("eth0"), &list), Ok("eth0".to_string()));
    assert_eq!(select_interface(Some("lo"), &list), Ok("lo".to_string()));
    let err = select_interface(Some("wlan9"), &list).unwrap_err();
    assert_eq!(err, InterfaceError::Unknown("wlan9".to_string()));
    assert_eq!(err.message(), "网卡 'wlan9' 不存在，请使用 list-interfaces 查看可用网卡");
}

#[test]
fn select_first_usable_interface() {
    let list = vec![
        iface("lo", "local"),
        iface("lo0", "Ethernet"),
        iface("npcap0", "Adapter for Loopback traffic"),
        iface("eth1", "Ethernet"),
        iface("eth2", "Ethernet"),
    ];
    assert_eq!(select_interface(None, &list), Ok("eth1".to_string()));
    let list = vec![iface("lo", "Loopback"), iface("wlo1", "Wireless")];
    assert_eq!(select_interface(None, &list), Ok("wlo1".to_string()));
    let list = vec![iface("lo1a", "Ethernet")];
    assert_eq!(select_interface(None, &list), Ok("lo1a".to_string()));
}

#[test]
fn select_without_usable_interface() {
    let list = vec![iface("lo", "Loopback")];
    let err = select_interface(None, &list).unwrap_err();
    assert_eq!(err, InterfaceError::NoneUsable);
    assert_eq!(err.message(), "未找到可用的网卡，请手动指定网卡名称");
    assert_eq!(select_interface(None, &vec![]), Err(InterfaceError::NoneUsable));
}

#[test]
fn progress_every_hundred_packets() {
    assert!(!progress_due(1));
    assert!(!progress_due(99));
    assert!(progress_due(100));
    assert!(progress_due(300));
}
