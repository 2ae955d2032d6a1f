//! Records of the metadata store: the row written for each parsed packet,
//! and the summary statistics read back.

use vstd::prelude::*;
use vstd::string::*;
use crate::common::text::str_eq;
use crate::common::address::{ip_text, ip_to_string};
use crate::common::types::protocol_name;
use crate::protocol::parser::ParsedPacket;

verus! {

/// Summary statistics of the stored metadata.
#[derive(Debug, Clone, Copy, PartialEq, Eq)]
pub struct MetadataStats {
    /// Number of stored packets.
    pub total_packets: i64,
    /// Distinct source addresses.
    pub unique_src_ips: i64,
    /// Distinct destination addresses.
    pub unique_dst_ips: i64,
    /// Earliest timestamp.
    pub min_timestamp: i64,
    /// Latest timestamp.
    pub max_timestamp: i64,
}

/// The values of one `packet_metadata` row, in the order of the table's
/// columns.
#[derive(Debug, Clone)]
pub struct MetadataRow {
    pub timestamp: i64,
    pub src_ip: String,
    pub dst_ip: String,
    pub src_port: u16,
    pub dst_port: u16,
    pub protocol: String,
    pub transport_protocol: String,
    pub app_protocol: Option<String>,
    pub ip_version: Option<u8>,
    pub ip_ttl: Option<u8>,
    pub ethernet_type: Option<u16>,
    pub packet_size: usize,
    pub ja3_hash: Option<String>,
    pub ja3s_hash: Option<String>,
    pub raw_packet_path: Option<String>,
}

/// The text under `key` among the (name, text) pairs: the text of the
/// first pair with that name, none where no pair has it.
pub open spec fn text_named(pairs: Seq<(String, String)>, key: Seq<char>) -> Option<Seq<char>>
    decreases pairs.len(),
{
    if pairs.len() == 0 {
        None
    } else if pairs[0].0@ == key {
        Some(pairs[0].1@)
    } else {
        text_named(pairs.drop_first(), key)
    }
}

/// `r` is the text stored under `key` in the application fields `meta`,
/// none where there are no fields at all.
pub open spec fn is_field_text(
    r: Option<String>,
    meta: Option<Vec<(String, String)>>,
    key: Seq<char>,
) -> bool {
    let expected = match meta {
        Some(v) => text_named(v@, key),
        None => None,
    };
    match r {
        Some(t) => expected == Some(t@),
        None => expected is None,
    }
}

/// The text stored under `key` among a packet's application fields.
pub fn field_text(meta: &Option<Vec<(String, String)>>, key: &str) -> (r: Option<String>)
    ensures
        is_field_text(r, *meta, key@),
{
    match meta {
        None => None,
        Some(v) => {
            let mut i: usize = 0;
            assert(v@.subrange(0, v@.len() as int) =~= v@);
            while i < v.len()
                invariant
                    *meta == Some(*v),
                    i <= v@.len(),
                    text_named(v@, key@) == text_named(v@.subrange(i as int, v@.len() as int), key@),
                decreases v@.len() - i,
            {
                let ghost rest = v@.subrange(i as int, v@.len() as int);
                assert(rest.drop_first() =~= v@.subrange(i + 1, v@.len() as int));
                if str_eq(v[i].0.as_str(), key) {
                    return Some(String::from_str(v[i].1.as_str()));
                }
                i = i + 1;
            }
            assert(v@.subrange(i as int, v@.len() as int).len() == 0);
            None
        },
    }
}

/// `row` holds the columns shared by single and batch inserts of `p`.
pub open spec fn row_common(row: MetadataRow, p: ParsedPacket) -> bool {
    &&& row.timestamp == p.timestamp
    &&& row.src_ip@ == ip_text(p.five_tuple.src_ip)
    &&& row.dst_ip@ == ip_text(p.five_tuple.dst_ip)
    &&& row.src_port == p.five_tuple.src_port
    &&& row.dst_port == p.five_tuple.dst_port
    &&& row.protocol@ == protocol_name(p.five_tuple.protocol)
    &&& row.transport_protocol@ == p.metadata.transport_protocol@
    &&& match row.app_protocol {
        Some(a) => p.metadata.app_protocol matches Some(b) && a@ == b@,
        None => p.metadata.app_protocol is None,
    }
    &&& row.ip_version == p.metadata.ip_version
    &&& row.ip_ttl == p.metadata.ip_ttl
    &&& row.ethernet_type == p.metadata.ethernet_type
    &&& row.packet_size == p.raw_bytes@.len()
}

fn copy_text(s: &Option<String>) -> (r: Option<String>)
    ensures
        match r {
            Some(a) => *s matches Some(b) && a@ == b@,
            None => *s is None,
        },
{
    match s {
        Some(b) => Some(String::from_str(b.as_str())),
        None => None,
    }
}

/// The row written for a packet by a single insert: its columns, the JA3
/// and JA3S hashes found among its application fields ("ja3_hash",
/// "ja3s_hash"), and the path of the capture file holding it.
pub fn metadata_row(packet: &ParsedPacket, raw_packet_path: Option<&str>) -> (row: MetadataRow)
    ensures
        row_common(row, *packet),
        is_field_text(row.ja3_hash, packet.metadata.app_metadata, "ja3_hash"@),
        is_field_text(row.ja3s_hash, packet.metadata.app_metadata, "ja3s_hash"@),
        match row.raw_packet_path {
            Some(a) => raw_packet_path matches Some(b) && a@ == b@,
            None => raw_packet_path is None,
        },
{
    let mut row = batch_row(packet);
    row.ja3_hash = field_text(&packet.metadata.app_metadata, "ja3_hash");
    row.ja3s_hash = field_text(&packet.metadata.app_metadata, "ja3s_hash");
    row.raw_packet_path = match raw_packet_path {
        Some(p) => Some(String::from_str(p)),
        None => None,
    };
    row
}

/// The row written for a packet by a batch insert: the same columns, with
/// no hashes and no capture file path.
pub fn batch_row(packet: &ParsedPacket) -> (row: MetadataRow)
    ensures
        row_common(row, *packet),
        row.ja3_hash is None,
        row.ja3s_hash is None,
        row.raw_packet_path is None,
{
    MetadataRow {
        timestamp: packet.timestamp,
        src_ip: ip_to_string(&packet.five_tuple.src_ip),
        dst_ip: ip_to_string(&packet.five_tuple.dst_ip),
        src_port: packet.five_tuple.src_port,
        dst_port: packet.five_tuple.dst_port,
        protocol: packet.five_tuple.protocol.to_string(),
        transport_protocol: String::from_str(packet.metadata.transport_protocol.as_str()),
        app_protocol: copy_text(&packet.metadata.app_protocol),
        ip_version: packet.metadata.ip_version,
        ip_ttl: packet.metadata.ip_ttl,
        ethernet_type: packet.metadata.ethernet_type,
        packet_size: packet.raw_bytes.len(),
        ja3_hash: None,
        ja3s_hash: None,
        raw_packet_path: None,
    }
}

} // verus!
