use rustsniffer::storage::cleanup::{is_expired, metadata_cutoff_ms, retention_cutoff_secs};
use rustsniffer::storage::packet_store::{
    daily_file_name, encode_epb, encode_idb, encode_shb, must_open_file,
};
use rustsniffer::storage::query::{build_query, QueryFilter, SqlParam};

const HEAD: &str = "SELECT id, timestamp, src_ip, dst_ip, src_port, dst_port, protocol, transport_protocol, app_protocol, packet_size, ja3_hash, ja3s_hash, raw_packet_path FROM packet_metadata WHERE 1=1";

#[test]
fn query_without_conditions() {
    let q = build_query(&QueryFilter::default());
    assert_eq!(q.sql, format!("{} ORDER BY timestamp DESC", HEAD));
    assert!(q.params.is_empty());
}

#[test]
fn query_with_every_condition() {
    let f = QueryFilter {
        start_time: Some(1000),
        end_time: Some(2000),
        src_ip: Some("10.0.0.1".to_string()),
        dst_ip: Some("10.0.0.2".to_string()),
        src_port: Some(1234),
        dst_port: Some(443),
        protocol: Some("TCP".to_string()),
        app_protocol: Some("HTTPS".to_string()),
        limit: Some(50),
        offset: Some(100),
    };
    let q = build_query(&f);
    assert_eq!(
        q.sql,
        format!(
            "{} AND timestamp >= ? AND timestamp <= ? AND src_ip = ? AND dst_ip = ? AND src_port = ? AND dst_port = ? AND protocol = ? AND app_protocol = ? ORDER BY timestamp DESC LIMIT 50 OFFSET 100",
            HEAD
        )
    );
    assert_eq!(q.params.len(), 8);
    assert!(matches!(q.params[0], SqlParam::Integer(1000)));
    assert!(matches!(q.params[1], SqlParam::Integer(2000)));
    assert!(matches!(&q.params[2], SqlParam::Text(s) if s == "10.0.0.1"));
    assert!(matches!(&q.params[3], SqlParam::Text(s) if s == "10.0.0.2"));
    assert!(matches!(q.params[4], SqlParam::Port(1234)));
    assert!(matches!(q.params[5], SqlParam::Port(443)));
    assert!(matches!(&q.params[6], SqlParam::Text(s) if s == "TCP"));
    assert!(matches!(&q.params[7], SqlParam::Text(s) if s == "HTTPS"));
}

#[test]
fn query_with_some_conditions() {
    let f = QueryFilter { dst_port: Some(53), limit: Some(0), ..QueryFilter::default() };
    let q = build_query(&f);
    assert_eq!(q.sql, format!("{} AND dst_port = ? ORDER BY timestamp DESC LIMIT 0", HEAD));
    assert_eq!(q.params.len(), 1);
    assert!(matches!(q.params[0], SqlParam::Port(53)));
}

#[test]
fn section_header_block_bytes() {
    let b = encode_shb();
    assert_eq!(
        b,
        vec![
            0x0A, 0x0D, 0x0D, 0x0A, 28, 0, 0, 0, 0x4D, 0x3C, 0x2B, 0x1A, 1, 0, 0, 0, 0xff, 0xff,
            0xff, 0xff, 0xff, 0xff, 0xff, 0xff, 28, 0, 0, 0
        ]
    );
}

#[test]
fn interface_description_block_bytes() {
    assert_eq!(encode_idb(), vec![1, 0, 0, 0, 20, 0, 0, 0, 1, 0, 0, 0, 0xff, 0xff, 0, 0, 20, 0, 0, 0]);
}

#[test]
fn enhanced_packet_block_bytes() {
    let b = encode_epb(1500, &[1, 2, 3]);
    assert_eq!(
        b,
        vec![
            6, 0, 0, 0, 36, 0, 0, 0, 0, 0, 0, 0, 0, 0, 0, 0, 0x60, 0xE3, 0x16, 0, 3, 0, 0, 0, 3, 0, 0,
            0, 1, 2, 3, 0, 36, 0, 0, 0
        ]
    );
    let b = encode_epb(-1, &[9, 9, 9, 9]);
    assert_eq!(b.len(), 36);
    assert_eq!(&b[12..20], &[0xff, 0xff, 0xff, 0xff, 0x18, 0xFC, 0xFF, 0xFF]);
    assert_eq!(&b[28..32], &[9, 9, 9, 9]);
    let b = encode_epb(0, &[]);
    assert_eq!(b.len(), 32);
    assert_eq!(&b[4..8], &[32, 0, 0, 0]);
    assert_eq!(&b[28..32], &[32, 0, 0, 0]);
}

#[test]
fn retention_rules() {
    assert_eq!(retention_cutoff_secs(1_000_000, 1), 913_600);
    assert_eq!(retention_cutoff_secs(1_000_000, 0), 1_000_000);
    assert!(is_expired(913_599, 913_600));
    assert!(!is_expired(913_600, 913_600));
    assert_eq!(metadata_cutoff_ms(3_000_000), 408_000_000);
}

#[test]
fn daily_capture_files() {
    assert_eq!(daily_file_name(0).as_deref(), Some("1970-01-01.pcapng"));
    assert_eq!(daily_file_name(1_431_648_000).as_deref(), Some("2015-05-15.pcapng"));
    assert_eq!(daily_file_name(1_431_734_399).as_deref(), Some("2015-05-15.pcapng"));
    assert_eq!(daily_file_name(1_431_734_400).as_deref(), Some("2015-05-16.pcapng"));
    assert_eq!(daily_file_name(253_402_300_799).as_deref(), Some("9999-12-31.pcapng"));
    assert_eq!(daily_file_name(i64::MAX), None);
    assert!(must_open_file(None, "2015-05-15.pcapng"));
    assert!(!must_open_file(Some("2015-05-15.pcapng"), "2015-05-15.pcapng"));
    assert!(must_open_file(Some("2015-05-15.pcapng"), "2015-05-16.pcapng"));
}

#[test]
fn placeholders_match_parameters() {
    let filters = [
        QueryFilter::default(),
        QueryFilter { src_ip: Some("1.2.3.4".to_string()), limit: Some(7), ..QueryFilter::default() },
        QueryFilter {
            start_time: Some(1),
            dst_port: Some(80),
            app_protocol: Some("HTTP".to_string()),
            offset: Some(3),
            ..QueryFilter::default()
        },
    ];
    for f in filters.iter() {
        let q = build_query(f);
        assert_eq!(q.sql.matches('?').count(), q.params.len());
    }
}

#[test]
fn offset_without_limit() {
    let f = QueryFilter { offset: Some(5), ..QueryFilter::default() };
    let q = build_query(&f);
    assert_eq!(q.sql, format!("{} ORDER BY timestamp DESC LIMIT -1 OFFSET 5", HEAD));
    let f = QueryFilter { limit: Some(2), offset: Some(5), ..QueryFilter::default() };
    assert_eq!(build_query(&f).sql, format!("{} ORDER BY timestamp DESC LIMIT 2 OFFSET 5", HEAD));
}

#[test]
fn sqlite_accepts_offset_query() {
    let conn = rusqlite::Connection::open_in_memory().unwrap();
    conn.execute_batch(
        "CREATE TABLE packet_metadata (id INTEGER PRIMARY KEY, timestamp INTEGER, src_ip TEXT, dst_ip TEXT, src_port INTEGER, dst_port INTEGER, protocol TEXT, transport_protocol TEXT, app_protocol TEXT, packet_size INTEGER, ja3_hash TEXT, ja3s_hash TEXT, raw_packet_path TEXT);
         INSERT INTO packet_metadata (timestamp, src_ip, dst_ip, protocol) VALUES (1, 'a', 'b', 'TCP'), (2, 'a', 'b', 'TCP'), (3, 'a', 'b', 'UDP');",
    )
    .unwrap();
    let q = build_query(&QueryFilter { offset: Some(1), ..QueryFilter::default() });
    let mut stmt = conn.prepare(&q.sql).unwrap();
    let stamps: Vec<i64> = stmt
        .query_map([], |row| row.get(1))
        .unwrap()
        .collect::<Result<Vec<i64>, _>>()
        .unwrap();
    assert_eq!(stamps, vec![2, 1]);
}
