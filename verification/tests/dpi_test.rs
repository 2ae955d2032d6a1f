use rustsniffer::common::types::{FiveTuple, IpAddr, Protocol};
use rustsniffer::dpi::classifier::ProtocolClassifier;
use rustsniffer::dpi::ja3::{extract_ja3, extract_ja3s, tls_version_to_string};
use rustsniffer::dpi::ndpi::NdpiDpiEngine;

fn client_hello() -> Vec<u8> {
    let mut d = vec![0x16, 0x03, 0x01, 0x00, 0x39, 0x01, 0x00, 0x00, 0x35, 0x03, 0x03];
    d.extend_from_slice(&[0u8; 32]); // random
    d.push(0x00); // session id length
    d.extend_from_slice(&[0x00, 0x04, 0x13, 0x01, 0x13, 0x02]); // two cipher suites
    d.extend_from_slice(&[0x01, 0x00]); // one compression method
    d.extend_from_slice(&[0x00, 0x08]); // extensions length
    d.extend_from_slice(&[0x00, 0x00, 0x00, 0x00]); // server_name, empty
    d.extend_from_slice(&[0x00, 0x0a, 0x00, 0x00]); // supported_groups, empty
    d
}

fn server_hello() -> Vec<u8> {
    let mut d = vec![0x16, 0x03, 0x03, 0x00, 0x30, 0x02, 0x00, 0x00, 0x2c, 0x03, 0x03];
    d.extend_from_slice(&[0u8; 32]); // random
    d.push(0x00); // session id length
    d.extend_from_slice(&[0x13, 0x01]); // cipher suite
    d.push(0x00); // compression method
    d.extend_from_slice(&[0x00, 0x04, 0x00, 0x2b, 0x00, 0x00]); // supported_versions
    d
}

#[test]
fn ja3_of_client_hello() {
    let fp = extract_ja3(&client_hello()).unwrap();
    assert_eq!(fp.ja3_raw, "771,4865-4866,0-10,,");
    assert_eq!(fp.ja3_hash, "fa65829b390323116f95b1aca4b4dc15");
}

#[test]
fn ja3s_of_server_hello() {
    let fp = extract_ja3s(&server_hello()).unwrap();
    assert_eq!(fp.ja3s_raw, "771,4865,43");
    assert_eq!(fp.ja3s_hash, "cce84e7a8b742462e40afb585a3e3ccc");
}

#[test]
fn ja3_with_unknown_version_and_no_extensions() {
    let mut d = client_hello();
    d[9] = 0x7f;
    d[10] = 0x00;
    d[44] = 0x00;
    d[45] = 0x00; // no cipher suites
    d.truncate(46);
    d.extend_from_slice(&[0x00]); // no compression methods, no extension block
    let fp = extract_ja3(&d).unwrap();
    assert_eq!(fp.ja3_raw, "32512,,,,");
    assert_eq!(fp.ja3_hash, "d08d46aa01ec0cc79e34950b79272b2a");
}

#[test]
fn ja3_refuses_other_records() {
    let mut d = client_hello();
    d[0] = 0x17;
    assert!(extract_ja3(&d).is_none());
    let mut d = client_hello();
    d[5] = 0x02;
    assert!(extract_ja3(&d).is_none());
    assert!(extract_ja3(&client_hello()[..42]).is_none());
    assert!(extract_ja3s(&client_hello()).is_none());
    assert!(extract_ja3s(&[0x16; 10]).is_none());
}

#[test]
fn tls_version_names() {
    assert_eq!(tls_version_to_string(0x0300), "3.0");
    assert_eq!(tls_version_to_string(0x0301), "3.1");
    assert_eq!(tls_version_to_string(0x0302), "3.2");
    assert_eq!(tls_version_to_string(0x0303), "3.3");
    assert_eq!(tls_version_to_string(0x0304), "1.3");
    assert_eq!(tls_version_to_string(0x0200), "unknown");
}

#[test]
fn classifier_by_port() {
    let c = ProtocolClassifier::new();
    assert_eq!(c.classify_by_port(80).as_deref(), Some("HTTP"));
    assert_eq!(c.classify_by_port(443).as_deref(), Some("HTTPS"));
    assert_eq!(c.classify_by_port(27017).as_deref(), Some("MONGODB"));
    assert_eq!(c.classify_by_port(8080), None);
}

#[test]
fn classifier_precedence() {
    let c = ProtocolClassifier::default();
    // A named DPI verdict wins.
    assert_eq!(c.classify(Protocol::TCP, 80, 443, Some("QUIC")), "QUIC");
    // "Unknown" and empty verdicts fall back to ports, destination first.
    assert_eq!(c.classify(Protocol::TCP, 80, 443, Some("Unknown")), "HTTPS");
    assert_eq!(c.classify(Protocol::TCP, 22, 50000, Some("")), "SSH");
    assert_eq!(c.classify(Protocol::TCP, 22, 50000, None), "SSH");
    // Without a known port the transport protocol is the answer.
    assert_eq!(c.classify(Protocol::UDP, 40000, 50000, None), "UDP");
}

#[test]
fn ndpi_engine_reports_unknown() {
    let mut engine = NdpiDpiEngine::new().unwrap();
    let flow = FiveTuple::new(IpAddr::V4(1), IpAddr::V4(2), 1000, 443, Protocol::TCP);
    assert_eq!(engine.detect_app_protocol(&[1, 2, 3], &flow), "Unknown");
    engine.reset();
    assert_eq!(engine.detect_app_protocol(&[], &flow), "Unknown");
}

#[test]
fn standard_ja3_and_ja3s_texts() {
    let mut hello = vec![0x16, 0x03, 0x01, 0x00, 0x33, 0x01, 0x00, 0x00, 0x2f, 0x03, 0x03];
    hello.extend_from_slice(&[0u8; 32]);
    hello.extend_from_slice(&[0x00, 0x00, 0x02, 0x13, 0x01, 0x01, 0x00, 0x00, 0x04, 0x00, 0x00, 0x00, 0x00]);
    let fp = extract_ja3(&hello).unwrap();
    assert_eq!(fp.ja3_raw, "771,4865,0,,");
    assert_eq!(fp.ja3_hash, "1e7c622032b0cb79401b0f7be3793a1a");

    let mut server = vec![0x16, 0x03, 0x03, 0x00, 0x30, 0x02, 0x00, 0x00, 0x2c, 0x03, 0x03];
    server.extend_from_slice(&[0u8; 32]);
    server.extend_from_slice(&[0x00, 0xc0, 0x2f, 0x00, 0x00, 0x04, 0xff, 0x01, 0x00, 0x00]);
    let fp = extract_ja3s(&server).unwrap();
    assert_eq!(fp.ja3s_raw, "771,49199,65281");
    assert_eq!(fp.ja3s_hash, "fbe78c619e7ea20046131294ad087f05");
    assert_eq!(fp.ja3s_hash.len(), 32);
    assert!(fp.ja3s_hash.chars().all(|c| c.is_ascii_digit() || ('a'..='f').contains(&c)));
}
