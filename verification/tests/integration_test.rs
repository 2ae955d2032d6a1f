use rustsniffer::common::error::SnifferError;
use rustsniffer::common::types::{IpAddr, Protocol};
use rustsniffer::protocol::parser::{DefaultProtocolParser, ProtocolParser};
use rustsniffer::storage::metadata::{batch_row, field_text, metadata_row};

fn tcp_frame() -> Vec<u8> {
    vec![
        // Ethernet header (14 bytes)
        0x00, 0x01, 0x02, 0x03, 0x04, 0x05, // dst mac
        0x06, 0x07, 0x08, 0x09, 0x0a, 0x0b, // src mac
        0x08, 0x00, // ether type (IPv4)
        // IPv4 header (20 bytes)
        0x45, 0x00, 0x00, 0x28, // version, IHL, total length
        0x00, 0x01, 0x00, 0x00, // identification, flags, fragment offset
        0x40, 0x06, 0x00, 0x00, // TTL, protocol (TCP), checksum
        0xc0, 0xa8, 0x01, 0x01, // src ip (192.168.1.1)
        0xc0, 0xa8, 0x01, 0x02, // dst ip (192.168.1.2)
        // TCP header (20 bytes)
        0x00, 0x50, 0x1f, 0x90, // src port (80), dst port (8080)
        0x00, 0x00, 0x00, 0x01, // sequence number
        0x00, 0x00, 0x00, 0x00, // acknowledgment number
        0x50, 0x02, 0x20, 0x00, // data offset, flags, window size
        0x00, 0x00, 0x00, 0x00, // checksum, urgent pointer
    ]
}

#[test]
fn test_protocol_parser() {
    let parser = DefaultProtocolParser::new();

    // 创建一个简单的以太网帧（IPv4 + TCP）
    let raw_packet = vec![
        // Ethernet header (14 bytes)
        0x00, 0x01, 0x02, 0x03, 0x04, 0x05, // dst mac
        0x06, 0x07, 0x08, 0x09, 0x0a, 0x0b, // src mac
        0x08, 0x00, // ether type (IPv4)
        // IPv4 header (20 bytes)
        0x45, 0x00, 0x00, 0x28, // version, IHL, total length
        0x00, 0x01, 0x00, 0x00, // identification, flags, fragment offset
        0x40, 0x06, 0x00, 0x00, // TTL, protocol (TCP), checksum
        0xc0, 0xa8, 0x01, 0x01, // src ip (192.168.1.1)
        0xc0, 0xa8, 0x01, 0x02, // dst ip (192.168.1.2)
        // TCP header (20 bytes)
        0x00, 0x50, 0x1f, 0x90, // src port (80), dst port (8080)
        0x00, 0x00, 0x00, 0x01, // sequence number
        0x00, 0x00, 0x00, 0x00, // acknowledgment number
        0x50, 0x02, 0x20, 0x00, // data offset, flags, window size
        0x00, 0x00, 0x00, 0x00, // checksum, urgent pointer
    ];

    let result = parser.parse(&raw_packet);
    assert!(result.is_ok(), "协议解析应该成功");

    let parsed = result.unwrap();
    assert_eq!(parsed.five_tuple.src_port, 80);
    assert_eq!(parsed.five_tuple.dst_port, 8080);
    assert_eq!(parsed.metadata.transport_protocol, "TCP");
    assert_eq!(parsed.metadata.ip_version, Some(4));
}

#[test]
fn parser_reads_addresses_ttl_and_ether_type() {
    let parser = DefaultProtocolParser::new();
    let parsed = parser.parse_at(&tcp_frame(), 1234).unwrap();
    assert_eq!(parsed.five_tuple.src_ip, IpAddr::V4(0xc0a8_0101));
    assert_eq!(parsed.five_tuple.dst_ip, IpAddr::V4(0xc0a8_0102));
    assert_eq!(parsed.five_tuple.protocol, Protocol::TCP);
    assert_eq!(parsed.metadata.ip_ttl, Some(64));
    assert_eq!(parsed.metadata.ethernet_type, Some(0x0800));
    assert_eq!(parsed.metadata.app_protocol, None);
    assert!(parsed.metadata.app_metadata.is_none());
    assert_eq!(parsed.raw_bytes, tcp_frame());
    assert_eq!(parsed.timestamp, 1234);
}

#[test]
fn parser_reads_udp_ports() {
    let mut frame = tcp_frame();
    frame[23] = 0x11; // protocol UDP
    frame[16] = 0x00;
    frame[17] = 0x1c; // total length 28
    frame.truncate(14 + 20 + 8);
    // UDP header: src 53, dst 5353, length 8, checksum 0
    frame[34..42].copy_from_slice(&[0x00, 0x35, 0x14, 0xe9, 0x00, 0x08, 0x00, 0x00]);
    let parsed = DefaultProtocolParser::new().parse(&frame).unwrap();
    assert_eq!(parsed.five_tuple.protocol, Protocol::UDP);
    assert_eq!(parsed.five_tuple.src_port, 53);
    assert_eq!(parsed.five_tuple.dst_port, 5353);
    assert_eq!(parsed.metadata.transport_protocol, "UDP");
}

#[test]
fn parser_summarises_icmp() {
    let mut frame = tcp_frame();
    frame[23] = 0x01; // protocol ICMP
    frame[16] = 0x00;
    frame[17] = 0x1e; // total length 30: 8 header bytes, 2 data bytes
    frame.truncate(14 + 20);
    // Echo request: type 8, code 0, then two data bytes.
    frame.extend_from_slice(&[0x08, 0x00, 0x00, 0x00, 0x00, 0x01, 0x00, 0x01, 0xaa, 0xbb]);
    let parsed = DefaultProtocolParser::new().parse(&frame).unwrap();
    assert_eq!(parsed.five_tuple.protocol, Protocol::ICMP);
    assert_eq!(parsed.five_tuple.src_port, 0);
    assert_eq!(parsed.five_tuple.dst_port, 0);
    assert_eq!(parsed.metadata.transport_protocol, "ICMP");
    assert_eq!(parsed.metadata.app_protocol.as_deref(), Some("ICMP (type=8, code=0)"));
    // A header alone, without data bytes, is summarised too.
    let mut bare = frame.clone();
    bare[17] = 0x1c;
    bare.truncate(14 + 20 + 8);
    bare[34] = 0x00; // echo reply
    let parsed = DefaultProtocolParser::new().parse(&bare).unwrap();
    assert_eq!(parsed.metadata.app_protocol.as_deref(), Some("ICMP (type=0, code=0)"));
}

#[test]
fn parser_refuses_truncated_frame() {
    for len in 0..14 {
        assert!(DefaultProtocolParser::new().parse(&tcp_frame()[..len]).is_err());
    }
    let frame = vec![0x00, 0x01, 0x02];
    let err = DefaultProtocolParser::new().parse(&frame).unwrap_err();
    match &err {
        SnifferError::ProtocolError(m) => assert!(m.starts_with("协议解析失败: ")),
        other => panic!("unexpected error {:?}", other),
    }
    assert!(err.to_string().starts_with("协议解析错误: 协议解析失败: "));
}

#[test]
fn metadata_row_copies_packet_columns() {
    let mut parsed = DefaultProtocolParser::new().parse_at(&tcp_frame(), 77).unwrap();
    let row = batch_row(&parsed);
    assert_eq!(row.timestamp, 77);
    assert_eq!(row.src_ip, "192.168.1.1");
    assert_eq!(row.dst_ip, "192.168.1.2");
    assert_eq!(row.src_port, 80);
    assert_eq!(row.dst_port, 8080);
    assert_eq!(row.protocol, "TCP");
    assert_eq!(row.transport_protocol, "TCP");
    assert_eq!(row.ip_version, Some(4));
    assert_eq!(row.ip_ttl, Some(64));
    assert_eq!(row.ethernet_type, Some(0x0800));
    assert_eq!(row.packet_size, 54);
    assert!(row.ja3_hash.is_none() && row.ja3s_hash.is_none() && row.raw_packet_path.is_none());

    parsed.metadata.app_metadata = Some(vec![
        ("sni".to_string(), "example.com".to_string()),
        ("ja3_hash".to_string(), "abc".to_string()),
        ("ja3_hash".to_string(), "second".to_string()),
    ]);
    let row = metadata_row(&parsed, Some("/tmp/a.pcapng"));
    assert_eq!(row.ja3_hash.as_deref(), Some("abc"));
    assert_eq!(row.ja3s_hash, None);
    assert_eq!(row.raw_packet_path.as_deref(), Some("/tmp/a.pcapng"));
    assert_eq!(row.packet_size, 54);
}

#[test]
fn field_text_finds_first_match() {
    let meta = Some(vec![("a".to_string(), "1".to_string()), ("b".to_string(), "2".to_string())]);
    assert_eq!(field_text(&meta, "b").as_deref(), Some("2"));
    assert_eq!(field_text(&meta, "c"), None);
    assert_eq!(field_text(&None, "a"), None);
}
