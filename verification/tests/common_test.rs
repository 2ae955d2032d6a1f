use rustsniffer::common::address::ip_to_string;
use rustsniffer::common::error::SnifferError;
use rustsniffer::common::text::{decimal_string, hex_string, str_contains, str_eq};
use rustsniffer::common::types::{Direction, FiveTuple, IpAddr, PacketInfo, Protocol};
use rustsniffer::protocol::icmp::{icmp_type_to_string, parse_icmp};
use rustsniffer::protocol::tcp::{ReassemblyStatus, TcpReassembler, TcpStream};

fn flow(src_port: u16) -> FiveTuple {
    FiveTuple::new(IpAddr::V4(0x0a00_0001), IpAddr::V4(0x0a00_0002), src_port, 80, Protocol::TCP)
}

#[test]
fn error_display_forms() {
    assert_eq!(SnifferError::capture("x").to_string(), "抓包错误: x");
    assert_eq!(SnifferError::protocol("x").to_string(), "协议解析错误: x");
    assert_eq!(SnifferError::dpi("x").to_string(), "DPI 检测错误: x");
    assert_eq!(SnifferError::storage("x").to_string(), "存储错误: x");
    assert_eq!(SnifferError::config("x").to_string(), "配置错误: x");
    assert_eq!(SnifferError::Other("x".to_string()).to_string(), "未分类错误: x");
    assert_eq!(SnifferError::config("bad"), SnifferError::ConfigError("bad".to_string()));
}

#[test]
fn protocol_and_direction_names() {
    assert_eq!(Protocol::TCP.to_string(), "TCP");
    assert_eq!(Protocol::UDP.to_string(), "UDP");
    assert_eq!(Protocol::ICMP.to_string(), "ICMP");
    assert_eq!(Direction::Inbound.to_string(), "inbound");
    assert_eq!(Direction::Outbound.to_string(), "outbound");
}

#[test]
fn five_tuple_reverse_twice_is_identity() {
    let t = FiveTuple::new(IpAddr::V4(1), IpAddr::V6(2), 1234, 80, Protocol::UDP);
    let r = t.reverse();
    assert_eq!(r.src_ip, IpAddr::V6(2));
    assert_eq!(r.dst_ip, IpAddr::V4(1));
    assert_eq!(r.src_port, 80);
    assert_eq!(r.dst_port, 1234);
    assert_eq!(r.protocol, Protocol::UDP);
    assert_eq!(r.reverse(), t);
}

#[test]
fn packet_info_length() {
    let p = PacketInfo::new(5, vec![1, 2, 3], "eth0".to_string());
    assert_eq!(p.len(), 3);
    assert!(!p.is_empty());
    assert_eq!(p.timestamp, 5);
    assert_eq!(p.interface_id, "eth0");
    assert!(PacketInfo::new(0, vec![], String::new()).is_empty());
}

#[test]
fn text_helpers() {
    assert_eq!(decimal_string(0), "0");
    assert_eq!(decimal_string(18446744073709551615), "18446744073709551615");
    assert_eq!(hex_string(&[0x00, 0xab, 0x0f]), "00ab0f");
    assert!(str_eq("abc", "abc"));
    assert!(!str_eq("abc", "abd"));
    assert!(str_contains("hello world", "o w"));
    assert!(str_contains("abc", ""));
    assert!(!str_contains("abc", "abcd"));
}

#[test]
fn icmp_descriptions() {
    assert_eq!(icmp_type_to_string(0), "Echo Reply");
    assert_eq!(icmp_type_to_string(3), "Destination Unreachable");
    assert_eq!(icmp_type_to_string(8), "Echo Request");
    assert_eq!(icmp_type_to_string(11), "Time Exceeded");
    assert_eq!(icmp_type_to_string(5), "Unknown");
    assert_eq!(parse_icmp(&[8, 0, 0, 0]), "ICMP Echo Request (type=8, code=0)");
    assert_eq!(parse_icmp(&[3, 13, 1, 2, 3]), "ICMP Destination Unreachable (type=3, code=13)");
    assert_eq!(parse_icmp(&[8, 0, 0]), "ICMP (truncated)");
}

#[test]
fn stream_releases_in_order() {
    let mut s = TcpStream::new(flow(1), 100, 0);
    s.add_segment(103, b"def".to_vec(), 1);
    assert!(!s.reassemble());
    assert!(s.reassembled_payload.is_empty());
    s.add_segment(100, b"abc".to_vec(), 2);
    assert!(s.reassemble());
    assert_eq!(s.reassembled_payload, b"abcdef".to_vec());
    assert_eq!(s.next_seq, 106);
    assert!(s.segments.is_empty());
    assert_eq!(s.last_activity, 2);
    s.complete();
    assert_eq!(s.status, ReassemblyStatus::Completed);
}

#[test]
fn stream_with_gap_fails_on_completion() {
    let mut s = TcpStream::new(flow(1), 0, 0);
    s.add_segment(10, vec![1], 0);
    s.add_segment(20, vec![2], 0);
    s.reassemble();
    s.complete();
    assert_eq!(s.status, ReassemblyStatus::Failed(2));
    assert!(s.is_timeout(60_001, 60_000));
    assert!(!s.is_timeout(60_000, 60_000));
}

#[test]
fn stream_sequence_wraps() {
    let mut s = TcpStream::new(flow(1), u32::MAX - 1, 0);
    s.add_segment(u32::MAX - 1, vec![1, 2], 0);
    s.add_segment(0, vec![3], 0);
    assert!(s.reassemble());
    assert_eq!(s.reassembled_payload, vec![1, 2, 3]);
    assert_eq!(s.next_seq, 1);
}

#[test]
fn reassembler_per_flow() {
    let mut r = TcpReassembler::new();
    assert_eq!(r.process_packet(&flow(1), 1000, b"abc".to_vec(), 0), Some(b"abc".to_vec()));
    assert_eq!(r.process_packet(&flow(1), 1006, b"ghi".to_vec(), 1), None);
    assert_eq!(r.process_packet(&flow(2), 5, b"zz".to_vec(), 2), Some(b"zz".to_vec()));
    assert_eq!(r.process_packet(&flow(1), 1003, b"def".to_vec(), 3), Some(b"defghi".to_vec()));
    assert_eq!(r.stats(), (2, 0));
    // Flow 2 is idle longer than the 60 s timeout at 60 003 ms; flow 1 is not.
    r.cleanup_timeout(60_003);
    assert_eq!(r.stats(), (1, 0));
    r.cleanup_timeout(120_004);
    assert_eq!(r.stats(), (0, 0));
    assert_eq!(TcpReassembler::default().stats(), (0, 0));
}

#[test]
fn ipv4_text() {
    assert_eq!(ip_to_string(&IpAddr::V4(0xc0a8_0101)), "192.168.1.1");
    assert_eq!(ip_to_string(&IpAddr::V4(0)), "0.0.0.0");
    assert_eq!(ip_to_string(&IpAddr::V4(u32::MAX)), "255.255.255.255");
    assert_eq!(ip_to_string(&IpAddr::V4(0x0a00_00ff)), "10.0.0.255");
}

#[test]
fn ipv6_text() {
    let cases: [(u128, &str); 12] = [
        (0x20010db8000000000000000000000001, "2001:db8::1"),
        (0x0, "::"),
        (0x1, "::1"),
        (0x10000000000000000000000000000, "1::"),
        (0x20010db8000000000001000000000001, "2001:db8::1:0:0:1"),
        (0x20010000000000010000000000000001, "2001:0:0:1::1"),
        (0x10000000200000003000000040000, "1:0:2:0:3:0:4:0"),
        (0xfe800000000000000001000200030004, "fe80::1:2:3:4"),
        (0x10002000300040005000600070008, "1:2:3:4:5:6:7:8"),
        (0x100000000000100000000, "::1:0:0:1:0:0"),
        (0xffff_c0a8_0101, "::ffff:192.168.1.1"),
        (0x0102_0304, "::102:304"),
    ];
    for (a, text) in cases {
        assert_eq!(ip_to_string(&IpAddr::V6(a)), text);
    }
}

#[test]
fn five_tuple_text() {
    let t = FiveTuple::new(IpAddr::V4(0xc0a8_0101), IpAddr::V4(0x0808_0808), 5353, 53, Protocol::UDP);
    assert_eq!(t.to_string(), "192.168.1.1:5353 -> 8.8.8.8:53 (UDP)");
    let t = FiveTuple::new(IpAddr::V6(1), IpAddr::V6(0x20010db8000000000000000000000001), 1, 2, Protocol::TCP);
    assert_eq!(t.to_string(), "::1:1 -> 2001:db8::1:2 (TCP)");
    let t = FiveTuple::new(IpAddr::V4(1), IpAddr::V4(2), 0, 0, Protocol::ICMP);
    assert_eq!(t.to_string(), "0.0.0.1 -> 0.0.0.2 (ICMP)");
}

#[test]
fn retransmitted_segment_releases_nothing() {
    let mut r = TcpReassembler::new();
    assert_eq!(r.process_packet(&flow(7), 42, b"hello".to_vec(), 0), Some(b"hello".to_vec()));
    assert_eq!(r.process_packet(&flow(7), 42, b"hello".to_vec(), 1), None);
    assert_eq!(r.process_packet(&flow(7), 47, b"!".to_vec(), 2), Some(b"!".to_vec()));
}

#[test]
fn any_arrival_order_comes_out_in_sequence() {
    let mut r = TcpReassembler::new();
    let mut out: Vec<u8> = Vec::new();
    // The stream is established expecting sequence number 10.
    out.extend(r.process_packet(&flow(9), 10, b"ab".to_vec(), 0).unwrap());
    let arrivals: [(u32, &[u8]); 3] = [(16, b"gh"), (12, b"cd"), (14, b"ef")];
    let mut handed_out = Vec::new();
    for (seq, data) in arrivals {
        handed_out.push(r.process_packet(&flow(9), seq, data.to_vec(), 1));
    }
    assert_eq!(handed_out, vec![None, Some(b"cd".to_vec()), Some(b"efgh".to_vec())]);
    for o in handed_out.into_iter().flatten() {
        out.extend(o);
    }
    assert_eq!(out, b"abcdefgh".to_vec());
}
