//! ICMP type names and one-line descriptions.

use crate::common::text::{decimal_u8, push_decimal_u8};
use vstd::prelude::*;
use vstd::string::*;

verus! {

/// The name of an ICMP message type.
pub open spec fn icmp_type_name(icmp_type: u8) -> Seq<char> {
    if icmp_type == 0 {
        "Echo Reply"@
    } else if icmp_type == 3 {
        "Destination Unreachable"@
    } else if icmp_type == 8 {
        "Echo Request"@
    } else if icmp_type == 11 {
        "Time Exceeded"@
    } else {
        "Unknown"@
    }
}

/// The one-line description of an ICMP message.
pub open spec fn icmp_description(data: Seq<u8>) -> Seq<char> {
    if data.len() < 4 {
        "ICMP (truncated)"@
    } else {
        "ICMP "@ + icmp_type_name(data[0]) + " (type="@ + decimal_u8(data[0]) + ", code="@
            + decimal_u8(data[1]) + ")"@
    }
}

/// The name of an ICMP message type.
pub fn icmp_type_to_string(icmp_type: u8) -> (s: &'static str)
    ensures
        s@ == icmp_type_name(icmp_type),
{
    match icmp_type {
        0 => "Echo Reply",
        3 => "Destination Unreachable",
        8 => "Echo Request",
        11 => "Time Exceeded",
        _ => "Unknown",
    }
}

/// Describes an ICMP message from its type and code bytes, e.g.
/// `ICMP Echo Request (type=8, code=0)`.
pub fn parse_icmp(data: &[u8]) -> (s: String)
    ensures
        s@ == icmp_description(data@),
{
    if data.len() < 4 {
        return String::from_str("ICMP (truncated)");
    }
    let kind = data[0];
    let code = data[1];
    let mut s = String::from_str("ICMP ");
    s.append(icmp_type_to_string(kind));
    s.append(" (type=");
    push_decimal_u8(&mut s, kind);
    s.append(", code=");
    push_decimal_u8(&mut s, code);
    s.append(")");
    s
}

} // verus!
