use vstd::prelude::*;

verus! {

/// Direction of a packet flow relative to the host.
#[allow(non_camel_case_types)]
#[derive(Clone, Copy, Debug, Hash, PartialEq, Eq, Structural)]
pub enum FlowDirection {
    INGRESS,
    EGRESS,
}

/// Transport protocol of a logged packet.
#[allow(non_camel_case_types)]
#[derive(Clone, Copy, Debug, Hash, PartialEq, Eq, Structural)]
pub enum PacketType {
    TCP,
    UDP,
}

/// What a matching rule does with a packet.
#[allow(non_camel_case_types)]
#[derive(Clone, Copy, Debug, Hash, PartialEq, Eq, Structural)]
pub enum RuleAction {
    ALLOW,
    BLOCK,
}

/// Wildcard value of the port field of a match key.
pub const ANY_PORT: u16 = 0;

/// Wildcard value of the protocol field of a match key.
pub const ANY_PROTOCOL: u8 = 0;

/// Wildcard value of the address field of a match key (`0.0.0.0`).
pub const ANY_IP: u32 = 0;

/// IP protocol number of TCP.
pub const PROTO_TCP: u8 = 6;

/// IP protocol number of UDP.
pub const PROTO_UDP: u8 = 17;

/// The match key of a rule: the fields a packet is compared against.
#[derive(Clone, Copy, Debug, Hash, PartialEq, Eq, Structural)]
pub struct RuleKey {
    /// IPv4 source address in host order. Zero means any address.
    pub ip: u32,
    /// Zero means any port.
    pub port: u16,
    /// IP protocol number. Zero means any protocol.
    pub protocol: u8,
    pub direction: FlowDirection,
}

/// A firewall rule.
#[derive(Clone, Copy, Debug, Hash, PartialEq, Eq, Structural)]
pub struct Rule {
    /// Stable userspace rule identifier.
    pub id: u32,
    /// Lower values have higher precedence.
    pub priority: u16,
    pub key: RuleKey,
    pub action: RuleAction,
}

impl Rule {
    /// Builds a rule from its fields.
    pub fn new(
        id: u32,
        priority: u16,
        ip: u32,
        port: u16,
        protocol: u8,
        direction: FlowDirection,
        action: RuleAction,
    ) -> (r: Self)
        ensures
            r.id == id,
            r.priority == priority,
            r.key == (RuleKey { ip, port, protocol, direction }),
            r.action == action,
    {
        Rule { id, priority, key: RuleKey { ip, port, protocol, direction }, action }
    }
}

/// Record of a packet that the kernel program let through.
#[derive(Clone, Copy, Debug, Hash, PartialEq, Eq, Structural)]
pub struct LogEvent {
    pub src_addr: u32,
    pub port: u16,
    pub packet_type: PacketType,
    pub direction: FlowDirection,
}

/// An event sent from the kernel program to userspace.
#[derive(Clone, Copy, Debug, Hash, PartialEq, Eq, Structural)]
pub enum Event {
    LogEvent(LogEvent),
}

} // verus!
