//! Frame parsing: from raw Ethernet frame bytes to five-tuple and protocol
//! metadata.
//!
//! The header slicing is done by the etherparse crate; what the library makes
//! of the slices (addresses, ports, names, the ICMP summary) is verified here.

use crate::common::error::SnifferError;
use crate::common::text::{decimal_u8, push_decimal_u8};
use crate::common::types::{FiveTuple, IpAddr, Protocol};
use etherparse::{LinkSlice, NetSlice, SlicedPacket, TransportSlice};
use vstd::prelude::*;
use vstd::string::*;

verus! {

/// Metadata of a parsed packet.
#[derive(Debug, Clone)]
pub struct ProtocolMetadata {
    /// Ethernet type (0x0800 IPv4, 0x86DD IPv6).
    pub ethernet_type: Option<u16>,
    /// IP version (4 or 6).
    pub ip_version: Option<u8>,
    /// IPv4 TTL or IPv6 hop limit.
    pub ip_ttl: Option<u8>,
    /// Transport protocol name.
    pub transport_protocol: String,
    /// Application protocol, where one is known.
    pub app_protocol: Option<String>,
    /// Application-layer fields as (name, text value) pairs.
    pub app_metadata: Option<Vec<(String, String)>>,
}

impl Default for ProtocolMetadata {
    fn default() -> (m: Self)
        ensures
            m.ethernet_type is None,
            m.ip_version is None,
            m.ip_ttl is None,
            m.transport_protocol@ == "Unknown"@,
            m.app_protocol is None,
            m.app_metadata is None,
    {
        ProtocolMetadata {
            ethernet_type: None,
            ip_version: None,
            ip_ttl: None,
            transport_protocol: String::from_str("Unknown"),
            app_protocol: None,
            app_metadata: None,
        }
    }
}

/// A parsed packet.
#[derive(Debug, Clone)]
pub struct ParsedPacket {
    /// The flow.
    pub five_tuple: FiveTuple,
    /// Protocol metadata.
    pub metadata: ProtocolMetadata,
    /// The raw frame.
    pub raw_bytes: Vec<u8>,
    /// Parse time (Unix ms).
    pub timestamp: i64,
}

/// The network layer of a frame.
#[derive(Debug, Clone, Copy, PartialEq, Eq, Structural)]
pub enum NetLayer {
    /// IPv4 header: TTL and addresses.
    V4 { ttl: u8, src: u32, dst: u32 },
    /// IPv6 header: hop limit and addresses.
    V6 { hop_limit: u8, src: u128, dst: u128 },
}

/// The transport layer of a frame.
#[derive(Debug, Clone, Copy, PartialEq, Eq, Structural)]
pub enum TransportLayer {
    /// TCP with its ports.
    Tcp { src_port: u16, dst_port: u16 },
    /// UDP with its ports.
    Udp { src_port: u16, dst_port: u16 },
    /// ICMPv4.
    Icmpv4,
    /// ICMPv6.
    Icmpv6,
}

/// The Ethernet type of a frame as etherparse's `SlicedPacket::from_ethernet`
/// reads it (`None` for link layers other than Ethernet II), or that
/// function's error message where it refuses the frame.
pub uninterp spec fn ethernet_link_type(raw: Seq<u8>) -> Result<Option<u16>, Seq<char>>;

/// The network layer that `SlicedPacket::from_ethernet` finds in a frame.
pub uninterp spec fn ethernet_net_layer(raw: Seq<u8>) -> Option<NetLayer>;

/// The transport layer that `SlicedPacket::from_ethernet` finds in a frame.
pub uninterp spec fn ethernet_transport_layer(raw: Seq<u8>) -> Option<TransportLayer>;

/// The type and code of the ICMP header that `SlicedPacket::from_ethernet`
/// finds in a frame carrying ICMP.
pub uninterp spec fn ethernet_icmp_header(raw: Seq<u8>) -> Option<(u8, u8)>;

/// Calls `etherparse::SlicedPacket::from_ethernet` and reads the Ethernet II
/// type of its link slice (`Ethernet2Slice::ether_type`), or renders the
/// slicing error with its `Display` text. Claimed: the result is a function
/// of the frame bytes alone, and a frame shorter than the 14-byte Ethernet II
/// header is refused (`Ethernet2Slice::from_slice_without_fcs`).
#[verifier::external_body]
fn slice_link_type(raw: &[u8]) -> (res: Result<Option<u16>, String>)
    ensures
        match res {
            Ok(t) => ethernet_link_type(raw@) == Ok::<Option<u16>, Seq<char>>(t),
            Err(e) => ethernet_link_type(raw@) == Err::<Option<u16>, Seq<char>>(e@),
        },
        raw@.len() < 14 ==> res is Err,
{
    match SlicedPacket::from_ethernet(raw) {
        Ok(p) => Ok(match p.link {
            Some(LinkSlice::Ethernet2(e)) => Some(e.ether_type().0),
            Some(LinkSlice::LinuxSll(_)) => None,
            Some(LinkSlice::EtherPayload(_)) => None,
            Some(LinkSlice::LinuxSllPayload(_)) => None,
            None => None,
        }),
        Err(e) => Err(e.to_string()),
    }
}

/// Calls `etherparse::SlicedPacket::from_ethernet` and reads the TTL / hop
/// limit and addresses of its IP header slice (`Ipv4HeaderSlice`,
/// `Ipv6HeaderSlice`). Claimed: the result is a function of the frame bytes.
#[verifier::external_body]
fn slice_net_layer(raw: &[u8]) -> (res: Option<NetLayer>)
    ensures
        res == ethernet_net_layer(raw@),
{
    match SlicedPacket::from_ethernet(raw).ok().and_then(|p| p.net) {
        Some(NetSlice::Ipv4(v)) => Some(NetLayer::V4 {
            ttl: v.header().ttl(),
            src: u32::from_be_bytes(v.header().source()),
            dst: u32::from_be_bytes(v.header().destination()),
        }),
        Some(NetSlice::Ipv6(v)) => Some(NetLayer::V6 {
            hop_limit: v.header().hop_limit(),
            src: u128::from_be_bytes(v.header().source()),
            dst: u128::from_be_bytes(v.header().destination()),
        }),
        None => None,
    }
}

/// Calls `etherparse::SlicedPacket::from_ethernet` and reads the kind and
/// ports of its transport slice (`TcpSlice`, `UdpSlice` ports). Claimed: the
/// result is a function of the frame bytes.
#[verifier::external_body]
fn slice_transport_layer(raw: &[u8]) -> (res: Option<TransportLayer>)
    ensures
        res == ethernet_transport_layer(raw@),
{
    match SlicedPacket::from_ethernet(raw).ok().and_then(|p| p.transport) {
        Some(TransportSlice::Tcp(t)) => Some(
            TransportLayer::Tcp { src_port: t.source_port(), dst_port: t.destination_port() },
        ),
        Some(TransportSlice::Udp(u)) => Some(
            TransportLayer::Udp { src_port: u.source_port(), dst_port: u.destination_port() },
        ),
        Some(TransportSlice::Icmpv4(_)) => Some(TransportLayer::Icmpv4),
        Some(TransportSlice::Icmpv6(_)) => Some(TransportLayer::Icmpv6),
        None => None,
    }
}

/// Calls `etherparse::SlicedPacket::from_ethernet` and reads the type and
/// code of its ICMP header (`Icmpv4Slice::type_u8` / `code_u8`, and the same
/// on `Icmpv6Slice`). Claimed: the result is a function of the frame bytes.
#[verifier::external_body]
fn slice_icmp_header(raw: &[u8]) -> (res: Option<(u8, u8)>)
    ensures
        res == ethernet_icmp_header(raw@),
{
    match SlicedPacket::from_ethernet(raw).ok().and_then(|p| p.transport) {
        Some(TransportSlice::Icmpv4(i)) => Some((i.type_u8(), i.code_u8())),
        Some(TransportSlice::Icmpv6(i)) => Some((i.type_u8(), i.code_u8())),
        Some(TransportSlice::Tcp(_)) => None,
        Some(TransportSlice::Udp(_)) => None,
        None => None,
    }
}

/// Reads the system clock (`std::time::SystemTime::now`) and converts it
/// with chrono's `DateTime::<Utc>::from` to Unix milliseconds
/// (`timestamp_millis`); a clock before 1970 gives a negative value rather
/// than a failure. Nothing is claimed of the value: it is the clock's
/// reading.
#[verifier::external_body]
fn now_unix_millis() -> (t: i64) {
    chrono::DateTime::<chrono::Utc>::from(std::time::SystemTime::now()).timestamp_millis()
}

/// The transport protocol name recorded for a frame.
pub open spec fn transport_name(t: Option<TransportLayer>) -> Seq<char> {
    match t {
        Some(TransportLayer::Tcp { .. }) => "TCP"@,
        Some(TransportLayer::Udp { .. }) => "UDP"@,
        Some(TransportLayer::Icmpv4) => "ICMP"@,
        Some(TransportLayer::Icmpv6) => "ICMPv6"@,
        None => "Unknown"@,
    }
}

/// The five-tuple protocol of a frame (TCP where no transport is found).
pub open spec fn transport_protocol(t: Option<TransportLayer>) -> Protocol {
    match t {
        Some(TransportLayer::Tcp { .. }) => Protocol::TCP,
        Some(TransportLayer::Udp { .. }) => Protocol::UDP,
        Some(TransportLayer::Icmpv4) => Protocol::ICMP,
        Some(TransportLayer::Icmpv6) => Protocol::ICMP,
        None => Protocol::TCP,
    }
}

/// Source and destination ports (0 without TCP or UDP).
pub open spec fn transport_ports(t: Option<TransportLayer>) -> (u16, u16) {
    match t {
        Some(TransportLayer::Tcp { src_port, dst_port }) => (src_port, dst_port),
        Some(TransportLayer::Udp { src_port, dst_port }) => (src_port, dst_port),
        _ => (0, 0),
    }
}

/// Source and destination addresses (0.0.0.0 without an IP layer).
pub open spec fn net_endpoints(n: Option<NetLayer>) -> (IpAddr, IpAddr) {
    match n {
        Some(NetLayer::V4 { src, dst, .. }) => (IpAddr::V4(src), IpAddr::V4(dst)),
        Some(NetLayer::V6 { src, dst, .. }) => (IpAddr::V6(src), IpAddr::V6(dst)),
        None => (IpAddr::V4(0), IpAddr::V4(0)),
    }
}

/// IP version of the network layer.
pub open spec fn net_version(n: Option<NetLayer>) -> Option<u8> {
    match n {
        Some(NetLayer::V4 { .. }) => Some(4u8),
        Some(NetLayer::V6 { .. }) => Some(6u8),
        None => None,
    }
}

/// TTL or hop limit of the network layer.
pub open spec fn net_ttl(n: Option<NetLayer>) -> Option<u8> {
    match n {
        Some(NetLayer::V4 { ttl, .. }) => Some(ttl),
        Some(NetLayer::V6 { hop_limit, .. }) => Some(hop_limit),
        None => None,
    }
}

/// The summary of an ICMP frame, from the type and code of its ICMP header,
/// e.g. `ICMP (type=8, code=0)`.
pub open spec fn control_summary(t: Option<TransportLayer>, header: Option<(u8, u8)>) -> Option<
    Seq<char>,
> {
    match (t, header) {
        (Some(TransportLayer::Icmpv4), Some((ty, code))) => Some(
            "ICMP (type="@ + decimal_u8(ty) + ", code="@ + decimal_u8(code) + ")"@,
        ),
        (Some(TransportLayer::Icmpv6), Some((ty, code))) => Some(
            "ICMPv6 (type="@ + decimal_u8(ty) + ", code="@ + decimal_u8(code) + ")"@,
        ),
        _ => None,
    }
}

/// `p` is the packet that the given layers of frame `raw` make, parsed at
/// `timestamp`.
pub open spec fn parsed_from_layers(
    p: ParsedPacket,
    raw: Seq<u8>,
    ether_type: Option<u16>,
    net: Option<NetLayer>,
    transport: Option<TransportLayer>,
    icmp: Option<(u8, u8)>,
    timestamp: i64,
) -> bool {
    &&& p.five_tuple == FiveTuple {
        src_ip: net_endpoints(net).0,
        dst_ip: net_endpoints(net).1,
        src_port: transport_ports(transport).0,
        dst_port: transport_ports(transport).1,
        protocol: transport_protocol(transport),
    }
    &&& p.metadata.ethernet_type == ether_type
    &&& p.metadata.ip_version == net_version(net)
    &&& p.metadata.ip_ttl == net_ttl(net)
    &&& p.metadata.transport_protocol@ == transport_name(transport)
    &&& match p.metadata.app_protocol {
        Some(s) => control_summary(transport, icmp) == Some(s@),
        None => control_summary(transport, icmp) is None,
    }
    &&& p.metadata.app_metadata is None
    &&& p.raw_bytes@ == raw
    &&& p.timestamp == timestamp
}

fn summary_head(v6: bool) -> (s: String)
    ensures
        s@ == (if v6 {
            "ICMPv6 (type="@
        } else {
            "ICMP (type="@
        }),
{
    if v6 {
        String::from_str("ICMPv6 (type=")
    } else {
        String::from_str("ICMP (type=")
    }
}

impl ParsedPacket {
    /// Assembles the packet from the layers found in frame `raw`.
    pub fn from_layers(
        raw: &[u8],
        ether_type: Option<u16>,
        net: Option<NetLayer>,
        transport: Option<TransportLayer>,
        icmp: Option<(u8, u8)>,
        timestamp: i64,
    ) -> (p: ParsedPacket)
        ensures
            parsed_from_layers(
                p,
                raw@,
                ether_type,
                net,
                transport,
                icmp,
                timestamp,
            ),
    {
        let (src_ip, dst_ip, ip_version, ip_ttl) = match net {
            Some(NetLayer::V4 { ttl, src, dst }) => (IpAddr::V4(src), IpAddr::V4(dst), Some(4u8), Some(ttl)),
            Some(NetLayer::V6 { hop_limit, src, dst }) => (
                IpAddr::V6(src),
                IpAddr::V6(dst),
                Some(6u8),
                Some(hop_limit),
            ),
            None => (IpAddr::V4(0), IpAddr::V4(0), None, None),
        };
        let (src_port, dst_port, protocol, name) = match transport {
            Some(TransportLayer::Tcp { src_port, dst_port }) => (src_port, dst_port, Protocol::TCP, "TCP"),
            Some(TransportLayer::Udp { src_port, dst_port }) => (src_port, dst_port, Protocol::UDP, "UDP"),
            Some(TransportLayer::Icmpv4) => (0u16, 0u16, Protocol::ICMP, "ICMP"),
            Some(TransportLayer::Icmpv6) => (0u16, 0u16, Protocol::ICMP, "ICMPv6"),
            None => (0u16, 0u16, Protocol::TCP, "Unknown"),
        };
        let v6 = match transport {
            Some(TransportLayer::Icmpv6) => true,
            _ => false,
        };
        let is_control = match transport {
            Some(TransportLayer::Icmpv4) => true,
            Some(TransportLayer::Icmpv6) => true,
            _ => false,
        };
        let app_protocol = match icmp {
            Some((ty, code)) => if is_control {
                let mut s = summary_head(v6);
                push_decimal_u8(&mut s, ty);
                s.append(", code=");
                push_decimal_u8(&mut s, code);
                s.append(")");
                Some(s)
            } else {
                None
            },
            None => None,
        };
        ParsedPacket {
            five_tuple: FiveTuple { src_ip, dst_ip, src_port, dst_port, protocol },
            metadata: ProtocolMetadata {
                ethernet_type: ether_type,
                ip_version,
                ip_ttl,
                transport_protocol: String::from_str(name),
                app_protocol,
                app_metadata: None,
            },
            raw_bytes: vstd::slice::slice_to_vec(raw),
            timestamp,
        }
    }
}

/// The text of a parse error: the prefix and etherparse's message.
pub open spec fn parse_failure_text(e: Seq<char>) -> Seq<char> {
    "协议解析失败: "@ + e
}

/// Parsing of raw frames into packets.
pub trait ProtocolParser {
    /// Parses a raw frame.
    fn parse(&self, raw: &[u8]) -> Result<ParsedPacket, SnifferError>;
}

/// The Ethernet frame parser.
#[derive(Debug, Clone, Copy)]
pub struct DefaultProtocolParser;

impl DefaultProtocolParser {
    /// The parser.
    pub fn new() -> (p: Self) {
        DefaultProtocolParser
    }

    /// Parses an Ethernet frame, stamping it with `timestamp`: a protocol
    /// error where etherparse refuses the frame, else the packet its layers
    /// make.
    pub fn parse_at(&self, raw: &[u8], timestamp: i64) -> (res: Result<ParsedPacket, SnifferError>)
        ensures
            raw@.len() < 14 ==> res is Err,
            match ethernet_link_type(raw@) {
                Err(e) => res matches Err(SnifferError::ProtocolError(m)) && m@
                    == parse_failure_text(e),
                Ok(t) => res matches Ok(p) && parsed_from_layers(
                    p,
                    raw@,
                    t,
                    ethernet_net_layer(raw@),
                    ethernet_transport_layer(raw@),
                    match ethernet_transport_layer(raw@) {
                        Some(TransportLayer::Icmpv4) => ethernet_icmp_header(raw@),
                        Some(TransportLayer::Icmpv6) => ethernet_icmp_header(raw@),
                        _ => None,
                    },
                    timestamp,
                ),
            },
    {
        match slice_link_type(raw) {
            Err(e) => {
                let mut m = String::from_str("协议解析失败: ");
                m.append(e.as_str());
                Err(SnifferError::ProtocolError(m))
            },
            Ok(t) => {
                let net = slice_net_layer(raw);
                let transport = slice_transport_layer(raw);
                let icmp = match transport {
                    Some(TransportLayer::Icmpv4) => slice_icmp_header(raw),
                    Some(TransportLayer::Icmpv6) => slice_icmp_header(raw),
                    _ => None,
                };
                Ok(ParsedPacket::from_layers(raw, t, net, transport, icmp, timestamp))
            },
        }
    }
}

impl ProtocolParser for DefaultProtocolParser {
    /// Parses an Ethernet frame, stamped with the current time.
    fn parse(&self, raw: &[u8]) -> (res: Result<ParsedPacket, SnifferError>)
        ensures
            raw@.len() < 14 ==> res is Err,
            match ethernet_link_type(raw@) {
                Err(e) => res matches Err(SnifferError::ProtocolError(m)) && m@
                    == parse_failure_text(e),
                Ok(t) => res matches Ok(p) && parsed_from_layers(
                    p,
                    raw@,
                    t,
                    ethernet_net_layer(raw@),
                    ethernet_transport_layer(raw@),
                    match ethernet_transport_layer(raw@) {
                        Some(TransportLayer::Icmpv4) => ethernet_icmp_header(raw@),
                        Some(TransportLayer::Icmpv6) => ethernet_icmp_header(raw@),
                        _ => None,
                    },
                    p.timestamp,
                ),
            },
    {
        let now = now_unix_millis();
        self.parse_at(raw, now)
    }
}

impl Default for DefaultProtocolParser {
    fn default() -> (p: Self) {
        Self::new()
    }
}

/// What a parsed packet says of the layers it was made from: the source
/// address of the IP header is the flow's source and its destination the
/// flow's destination, for IPv4 and IPv6 alike, with the header's TTL or hop
/// limit and version; TCP and UDP give their ports in the same order, ICMP
/// gives ports 0; the frame bytes and the time are kept.
pub proof fn lemma_parsed_packet_follows_headers(
    p: ParsedPacket,
    raw: Seq<u8>,
    ether_type: Option<u16>,
    net: Option<NetLayer>,
    transport: Option<TransportLayer>,
    icmp: Option<(u8, u8)>,
    timestamp: i64,
)
    requires
        parsed_from_layers(p, raw, ether_type, net, transport, icmp, timestamp),
    ensures
        match net {
            Some(NetLayer::V4 { ttl, src, dst }) => {
                &&& p.five_tuple.src_ip == IpAddr::V4(src)
                &&& p.five_tuple.dst_ip == IpAddr::V4(dst)
                &&& p.metadata.ip_version == Some(4u8)
                &&& p.metadata.ip_ttl == Some(ttl)
            },
            Some(NetLayer::V6 { hop_limit, src, dst }) => {
                &&& p.five_tuple.src_ip == IpAddr::V6(src)
                &&& p.five_tuple.dst_ip == IpAddr::V6(dst)
                &&& p.metadata.ip_version == Some(6u8)
                &&& p.metadata.ip_ttl == Some(hop_limit)
            },
            None => {
                &&& p.five_tuple.src_ip == IpAddr::V4(0)
                &&& p.five_tuple.dst_ip == IpAddr::V4(0)
                &&& p.metadata.ip_version is None
                &&& p.metadata.ip_ttl is None
            },
        },
        match transport {
            Some(TransportLayer::Tcp { src_port, dst_port }) => {
                &&& p.five_tuple.src_port == src_port
                &&& p.five_tuple.dst_port == dst_port
                &&& p.five_tuple.protocol == Protocol::TCP
            },
            Some(TransportLayer::Udp { src_port, dst_port }) => {
                &&& p.five_tuple.src_port == src_port
                &&& p.five_tuple.dst_port == dst_port
                &&& p.five_tuple.protocol == Protocol::UDP
            },
            Some(_) => {
                &&& p.five_tuple.src_port == 0
                &&& p.five_tuple.dst_port == 0
                &&& p.five_tuple.protocol == Protocol::ICMP
            },
            None => p.five_tuple.src_port == 0 && p.five_tuple.dst_port == 0,
        },
        p.metadata.ethernet_type == ether_type,
        p.raw_bytes@ == raw,
        p.timestamp == timestamp,
{
}

} // verus!
