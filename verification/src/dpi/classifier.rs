//! Application protocol classification by DPI verdict and well-known ports.

use crate::common::text::str_eq;
use crate::common::types::{protocol_name, Protocol};
use std::collections::HashMap;
use vstd::prelude::*;
use vstd::string::*;

verus! {

broadcast use {
    vstd::std_specs::hash::axiom_u16_obeys_hash_table_key_model,
    vstd::std_specs::hash::axiom_random_state_builds_valid_hashers,
};

/// The service that a well-known port number stands for.
pub open spec fn well_known_service(port: u16) -> Option<Seq<char>> {
    if port == 20 {
        Some("FTP-DATA"@)
    } else if port == 21 {
        Some("FTP"@)
    } else if port == 22 {
        Some("SSH"@)
    } else if port == 23 {
        Some("TELNET"@)
    } else if port == 25 {
        Some("SMTP"@)
    } else if port == 53 {
        Some("DNS"@)
    } else if port == 80 {
        Some("HTTP"@)
    } else if port == 110 {
        Some("POP3"@)
    } else if port == 143 {
        Some("IMAP"@)
    } else if port == 443 {
        Some("HTTPS"@)
    } else if port == 993 {
        Some("IMAPS"@)
    } else if port == 995 {
        Some("POP3S"@)
    } else if port == 3306 {
        Some("MYSQL"@)
    } else if port == 5432 {
        Some("POSTGRESQL"@)
    } else if port == 6379 {
        Some("REDIS"@)
    } else if port == 27017 {
        Some("MONGODB"@)
    } else {
        None
    }
}

/// Whether a DPI verdict names a protocol (is neither empty nor `Unknown`).
pub open spec fn names_protocol(verdict: Seq<char>) -> bool {
    verdict.len() > 0 && verdict != "Unknown"@
}

/// The application protocol of a packet: the confident DPI verdict where it
/// names a protocol, else the service of the destination port, else that of
/// the source port, else the transport protocol's name.
pub open spec fn classification(
    protocol: Protocol,
    src_port: u16,
    dst_port: u16,
    dpi_verdict: Option<Seq<char>>,
) -> Seq<char> {
    if dpi_verdict is Some && names_protocol(dpi_verdict.unwrap()) {
        dpi_verdict.unwrap()
    } else if well_known_service(dst_port) is Some {
        well_known_service(dst_port).unwrap()
    } else if well_known_service(src_port) is Some {
        well_known_service(src_port).unwrap()
    } else {
        protocol_name(protocol)
    }
}

/// Detection does not depend on port numbers: once a DPI verdict names a
/// protocol, the ports of the packet make no difference to the answer.
pub proof fn lemma_dpi_verdict_ignores_ports(
    protocol: Protocol,
    src_a: u16,
    dst_a: u16,
    src_b: u16,
    dst_b: u16,
    verdict: Seq<char>,
)
    requires
        names_protocol(verdict),
    ensures
        classification(protocol, src_a, dst_a, Some(verdict)) == verdict,
        classification(protocol, src_a, dst_a, Some(verdict)) == classification(
            protocol,
            src_b,
            dst_b,
            Some(verdict),
        ),
{
}

/// Without a usable verdict, a well-known destination port decides before
/// the source port, and the transport protocol's name is the last resort.
pub proof fn lemma_port_fallback_order(protocol: Protocol, src: u16, dst: u16)
    ensures
        well_known_service(dst) is Some ==> classification(protocol, src, dst, None)
            == well_known_service(dst).unwrap(),
        well_known_service(dst) is None && well_known_service(src) is Some ==> classification(
            protocol,
            src,
            dst,
            None,
        ) == well_known_service(src).unwrap(),
        well_known_service(dst) is None && well_known_service(src) is None ==> classification(
            protocol,
            src,
            dst,
            None,
        ) == protocol_name(protocol),
{
}

/// The table of well-known ports: each port with a well-known service,
/// mapped to the service's name.
pub open spec fn well_known_table() -> Map<u16, Seq<char>> {
    Map::new(|p: u16| well_known_service(p) is Some, |p: u16| well_known_service(p).unwrap())
}

/// Classifies packets by DPI verdict and port.
pub struct ProtocolClassifier {
    port_map: HashMap<u16, String>,
}

impl View for ProtocolClassifier {
    type V = Map<u16, Seq<char>>;

    /// The classifier's port table: port to service name.
    closed spec fn view(&self) -> Map<u16, Seq<char>> {
        self.port_map@.map_values(|s: String| s@)
    }
}

impl ProtocolClassifier {
    /// The port table holds exactly the well-known services.
    #[verifier::type_invariant]
    spec fn table_is_well_known(self) -> bool {
        forall|p: u16|
            #[trigger] self.port_map@.contains_key(p) == (well_known_service(p) is Some) && (
            self.port_map@.contains_key(p) ==> self.port_map@[p]@ == well_known_service(p).unwrap())
    }

    /// A classifier with the table of well-known ports.
    pub fn new() -> (c: Self)
        ensures
            c@ == well_known_table(),
    {
        let mut port_map: HashMap<u16, String> = HashMap::new();
        port_map.insert(20, String::from_str("FTP-DATA"));
        port_map.insert(21, String::from_str("FTP"));
        port_map.insert(22, String::from_str("SSH"));
        port_map.insert(23, String::from_str("TELNET"));
        port_map.insert(25, String::from_str("SMTP"));
        port_map.insert(53, String::from_str("DNS"));
        port_map.insert(80, String::from_str("HTTP"));
        port_map.insert(110, String::from_str("POP3"));
        port_map.insert(143, String::from_str("IMAP"));
        port_map.insert(443, String::from_str("HTTPS"));
        port_map.insert(993, String::from_str("IMAPS"));
        port_map.insert(995, String::from_str("POP3S"));
        port_map.insert(3306, String::from_str("MYSQL"));
        port_map.insert(5432, String::from_str("POSTGRESQL"));
        port_map.insert(6379, String::from_str("REDIS"));
        port_map.insert(27017, String::from_str("MONGODB"));
        let c = ProtocolClassifier { port_map };
        proof {
            use_type_invariant(&c);
            assert(c@ =~= well_known_table());
        }
        c
    }

    /// The service of a well-known port.
    pub fn classify_by_port(&self, port: u16) -> (res: Option<String>)
        ensures
            match res {
                Some(s) => well_known_service(port) == Some(s@),
                None => well_known_service(port) is None,
            },
    {
        proof {
            use_type_invariant(self);
        }
        match self.port_map.get(&port) {
            Some(name) => Some(name.clone()),
            None => None,
        }
    }

    /// The application protocol of a packet with these ports, given the
    /// protocol named by a confident DPI verdict, if there is one.
    pub fn classify(&self, protocol: Protocol, src_port: u16, dst_port: u16, dpi_verdict: Option<
        &str,
    >) -> (res: String)
        ensures
            res@ == classification(
                protocol,
                src_port,
                dst_port,
                match dpi_verdict {
                    Some(v) => Some(v@),
                    None => None,
                },
            ),
    {
        if let Some(verdict) = dpi_verdict {
            if verdict.unicode_len() > 0 && !str_eq(verdict, "Unknown") {
                return String::from_str(verdict);
            }
        }
        if let Some(app) = self.classify_by_port(dst_port) {
            return app;
        }
        if let Some(app) = self.classify_by_port(src_port) {
            return app;
        }
        protocol.to_string()
    }
}

impl Default for ProtocolClassifier {
    fn default() -> (c: Self) {
        Self::new()
    }
}

/// The well-known ports are the IANA assignments: FTP data 20, FTP 21,
/// SSH 22, Telnet 23, SMTP 25, DNS 53, HTTP 80, POP3 110, IMAP 143, HTTPS
/// 443, IMAPS 993, POP3S 995, MySQL 3306, PostgreSQL 5432, Redis 6379 and
/// MongoDB 27017; no other port has a service.
pub proof fn lemma_well_known_ports_are_iana()
    ensures
        well_known_table() == map![
            20u16 => "FTP-DATA"@,
            21u16 => "FTP"@,
            22u16 => "SSH"@,
            23u16 => "TELNET"@,
            25u16 => "SMTP"@,
            53u16 => "DNS"@,
            80u16 => "HTTP"@,
            110u16 => "POP3"@,
            143u16 => "IMAP"@,
            443u16 => "HTTPS"@,
            993u16 => "IMAPS"@,
            995u16 => "POP3S"@,
            3306u16 => "MYSQL"@,
            5432u16 => "POSTGRESQL"@,
            6379u16 => "REDIS"@,
            27017u16 => "MONGODB"@,
        ],
{
    let m = map![
        20u16 => "FTP-DATA"@,
        21u16 => "FTP"@,
        22u16 => "SSH"@,
        23u16 => "TELNET"@,
        25u16 => "SMTP"@,
        53u16 => "DNS"@,
        80u16 => "HTTP"@,
        110u16 => "POP3"@,
        143u16 => "IMAP"@,
        443u16 => "HTTPS"@,
        993u16 => "IMAPS"@,
        995u16 => "POP3S"@,
        3306u16 => "MYSQL"@,
        5432u16 => "POSTGRESQL"@,
        6379u16 => "REDIS"@,
        27017u16 => "MONGODB"@,
    ];
    assert(well_known_table() =~= m);
}

} // verus!
