//! Core value types: transport protocol, addresses, five-tuple, direction and
//! captured packet.

use vstd::prelude::*;
use vstd::string::*;
use crate::common::address::{ip_text, ip_to_string};
use crate::common::text::{decimal, push_decimal};

verus! {

/// Transport-layer protocol of a flow.
#[derive(Debug, Clone, Copy, PartialEq, Eq, Hash, Structural)]
pub enum Protocol {
    /// TCP
    TCP,
    /// UDP
    UDP,
    /// ICMP (v4 or v6)
    ICMP,
}

/// The display name of a protocol.
pub open spec fn protocol_name(p: Protocol) -> Seq<char> {
    match p {
        Protocol::TCP => seq!['T', 'C', 'P'],
        Protocol::UDP => seq!['U', 'D', 'P'],
        Protocol::ICMP => seq!['I', 'C', 'M', 'P'],
    }
}

impl Protocol {
    /// The display name of the protocol: `TCP`, `UDP` or `ICMP`.
    pub fn to_string(&self) -> (s: String)
        ensures
            s@ == protocol_name(*self),
    {
        let name = match self {
            Protocol::TCP => {
                proof { reveal_strlit("TCP"); }
                "TCP"
            },
            Protocol::UDP => {
                proof { reveal_strlit("UDP"); }
                "UDP"
            },
            Protocol::ICMP => {
                proof { reveal_strlit("ICMP"); }
                "ICMP"
            },
        };
        String::from_str(name)
    }
}

/// An IP address: IPv4 as a 32-bit number, IPv6 as a 128-bit number, both in
/// network (big-endian) order of their octets.
#[derive(Debug, Clone, Copy, PartialEq, Eq, Hash, Structural)]
pub enum IpAddr {
    /// An IPv4 address.
    V4(u32),
    /// An IPv6 address.
    V6(u128),
}

/// The five-tuple that identifies a flow.
#[derive(Debug, Clone, Copy, PartialEq, Eq, Hash, Structural)]
pub struct FiveTuple {
    /// Source address.
    pub src_ip: IpAddr,
    /// Destination address.
    pub dst_ip: IpAddr,
    /// Source port (TCP/UDP).
    pub src_port: u16,
    /// Destination port (TCP/UDP).
    pub dst_port: u16,
    /// Transport protocol.
    pub protocol: Protocol,
}

/// The five-tuple of the opposite direction of a flow.
pub open spec fn reversed(t: FiveTuple) -> FiveTuple {
    FiveTuple {
        src_ip: t.dst_ip,
        dst_ip: t.src_ip,
        src_port: t.dst_port,
        dst_port: t.src_port,
        protocol: t.protocol,
    }
}

impl FiveTuple {
    /// Builds a five-tuple from its parts.
    pub fn new(src_ip: IpAddr, dst_ip: IpAddr, src_port: u16, dst_port: u16, protocol: Protocol) -> (t:
        Self)
        ensures
            t == (FiveTuple { src_ip, dst_ip, src_port, dst_port, protocol }),
    {
        FiveTuple { src_ip, dst_ip, src_port, dst_port, protocol }
    }

    /// The five-tuple with source and destination swapped.
    pub fn reverse(&self) -> (t: Self)
        ensures
            t == reversed(*self),
    {
        FiveTuple {
            src_ip: self.dst_ip,
            dst_ip: self.src_ip,
            src_port: self.dst_port,
            dst_port: self.src_port,
            protocol: self.protocol,
        }
    }
}

/// The display form of a flow: addresses with ports for TCP and UDP
/// (`a:p -> b:q (TCP)`), addresses alone for ICMP (`a -> b (ICMP)`).
pub open spec fn five_tuple_text(t: FiveTuple) -> Seq<char> {
    match t.protocol {
        Protocol::ICMP => ip_text(t.src_ip) + " -> "@ + ip_text(t.dst_ip) + " ("@ + protocol_name(
            t.protocol,
        ) + ")"@,
        _ => ip_text(t.src_ip) + ":"@ + decimal(t.src_port as nat) + " -> "@ + ip_text(t.dst_ip)
            + ":"@ + decimal(t.dst_port as nat) + " ("@ + protocol_name(t.protocol) + ")"@,
    }
}

impl FiveTuple {
    /// The display form of the flow.
    pub fn to_string(&self) -> (s: String)
        ensures
            s@ == five_tuple_text(*self),
    {
        let mut s = ip_to_string(&self.src_ip);
        let ghost src = s@;
        let with_ports = match self.protocol {
            Protocol::ICMP => false,
            _ => true,
        };
        if with_ports {
            s.append(":");
            push_decimal(&mut s, self.src_port as u64);
        }
        s.append(" -> ");
        let dst = ip_to_string(&self.dst_ip);
        s.append(dst.as_str());
        if with_ports {
            s.append(":");
            push_decimal(&mut s, self.dst_port as u64);
        }
        s.append(" (");
        let p = self.protocol.to_string();
        s.append(p.as_str());
        s.append(")");
        assert(s@ =~= five_tuple_text(*self));
        s
    }
}

/// Reversing a five-tuple twice gives it back.
pub proof fn lemma_reverse_involution(t: FiveTuple)
    ensures
        reversed(reversed(t)) == t,
{
}

/// Direction of a packet relative to the host.
#[derive(Debug, Clone, Copy, PartialEq, Eq, Structural)]
pub enum Direction {
    /// Inbound traffic.
    Inbound,
    /// Outbound traffic.
    Outbound,
}

/// The display name of a direction.
pub open spec fn direction_name(d: Direction) -> Seq<char> {
    match d {
        Direction::Inbound => seq!['i', 'n', 'b', 'o', 'u', 'n', 'd'],
        Direction::Outbound => seq!['o', 'u', 't', 'b', 'o', 'u', 'n', 'd'],
    }
}

impl Direction {
    /// The display name: `inbound` or `outbound`.
    pub fn to_string(&self) -> (s: String)
        ensures
            s@ == direction_name(*self),
    {
        let name = match self {
            Direction::Inbound => {
                proof { reveal_strlit("inbound"); }
                "inbound"
            },
            Direction::Outbound => {
                proof { reveal_strlit("outbound"); }
                "outbound"
            },
        };
        String::from_str(name)
    }
}

/// A captured packet.
#[derive(Debug, Clone)]
pub struct PacketInfo {
    /// Capture time (Unix milliseconds).
    pub timestamp: i64,
    /// The raw packet bytes.
    pub raw_bytes: Vec<u8>,
    /// The interface it was captured on.
    pub interface_id: String,
}

impl PacketInfo {
    /// Builds a packet record from its parts.
    pub fn new(timestamp: i64, raw_bytes: Vec<u8>, interface_id: String) -> (p: Self)
        ensures
            p.timestamp == timestamp,
            p.raw_bytes@ == raw_bytes@,
            p.interface_id@ == interface_id@,
    {
        PacketInfo { timestamp, raw_bytes, interface_id }
    }

    /// The packet's length in bytes.
    pub fn len(&self) -> (n: usize)
        ensures
            n == self.raw_bytes@.len(),
    {
        self.raw_bytes.len()
    }

    /// Whether the packet holds no bytes.
    pub fn is_empty(&self) -> (b: bool)
        ensures
            b == (self.raw_bytes@.len() == 0),
    {
        self.raw_bytes.len() == 0
    }
}

} // verus!
