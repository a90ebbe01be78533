use vstd::prelude::*;
use crate::types::{Event, FlowDirection, LogEvent, PacketType, Rule, RuleAction, PROTO_TCP, PROTO_UDP};
use crate::lookup::{best_of_keys, candidate_key_seq, lookup_rule};
use crate::rule_map::RuleMap;

verus! {

/// Length of an Ethernet header.
pub const ETH_HDR_LEN: usize = 14;
/// Length of an IPv4 header without options.
pub const IPV4_HDR_LEN: usize = 20;
/// Length of a TCP header without options.
pub const TCP_HDR_LEN: usize = 20;
/// Length of a UDP header.
pub const UDP_HDR_LEN: usize = 8;

/// What the XDP hook tells the kernel to do with a frame.
#[allow(non_camel_case_types)]
#[derive(Clone, Copy, Debug, PartialEq, Eq, Structural)]
pub enum XdpAction {
    /// The frame could not be read: the program aborts.
    XDP_ABORTED,
    XDP_DROP,
    XDP_PASS,
}

/// What the traffic-control hook tells the kernel to do with a packet.
#[allow(non_camel_case_types)]
#[derive(Clone, Copy, Debug, PartialEq, Eq, Structural)]
pub enum TcAction {
    /// Hand the packet on to the next action.
    TC_ACT_PIPE,
    /// Drop the packet.
    TC_ACT_SHOT,
}

/// The decision on a frame, and the event to log for it, if any.
#[derive(Clone, Copy, Debug, PartialEq, Eq, Structural)]
pub struct XdpVerdict {
    pub action: XdpAction,
    pub event: Option<Event>,
}

/// The fields of an IPv4 TCP or UDP frame that the policy reads.
#[derive(Clone, Copy, Debug, PartialEq, Eq, Structural)]
pub struct PacketInfo {
    /// IPv4 source address, host order.
    pub src_addr: u32,
    /// Transport source port, host order.
    pub port: u16,
    /// IP protocol number: TCP or UDP.
    pub protocol: u8,
}

/// The big-endian 16-bit number at `off`.
pub open spec fn be16(b: Seq<u8>, off: int) -> u16 {
    (b[off] as int * 256 + b[off + 1] as int) as u16
}

/// The big-endian 32-bit number at `off`.
pub open spec fn be32(b: Seq<u8>, off: int) -> u32 {
    (b[off] as int * 16777216 + b[off + 1] as int * 65536 + b[off + 2] as int * 256
        + b[off + 3] as int) as u32
}

/// What the hook reads from a frame: `Err` where a header it reads runs past
/// the end of the frame, `None` for a frame that is not IPv4 carrying TCP or
/// UDP, and otherwise the source address, source port and protocol.
pub open spec fn packet_info(frame: Seq<u8>) -> Result<Option<PacketInfo>, ()> {
    let eth = ETH_HDR_LEN as int;
    let ip = IPV4_HDR_LEN as int;
    if frame.len() < eth {
        Err(())
    } else if !(frame[12] == 0x08 && frame[13] == 0x00) {
        Ok(None)
    } else if frame.len() < eth + ip {
        Err(())
    } else {
        let protocol = frame[eth + 9];
        if protocol != PROTO_TCP && protocol != PROTO_UDP {
            Ok(None)
        } else {
            let l4 = if protocol == PROTO_TCP { TCP_HDR_LEN as int } else { UDP_HDR_LEN as int };
            if frame.len() < eth + ip + l4 {
                Err(())
            } else {
                Ok(Some(PacketInfo {
                    src_addr: be32(frame, eth + 12),
                    port: be16(frame, eth + ip),
                    protocol,
                }))
            }
        }
    }
}

/// The verdict on a readable TCP or UDP packet given the rule that decides
/// it: a blocking rule drops it silently, anything else lets it pass with a
/// log event.
pub open spec fn verdict_for(p: PacketInfo, decisive: Option<Rule>) -> XdpVerdict {
    if decisive matches Some(r) && r.action == RuleAction::BLOCK {
        XdpVerdict { action: XdpAction::XDP_DROP, event: None }
    } else {
        XdpVerdict {
            action: XdpAction::XDP_PASS,
            event: Some(
                Event::LogEvent(
                    LogEvent {
                        src_addr: p.src_addr,
                        port: p.port,
                        packet_type: if p.protocol == PROTO_TCP {
                            PacketType::TCP
                        } else {
                            PacketType::UDP
                        },
                        direction: FlowDirection::INGRESS,
                    },
                ),
            ),
        }
    }
}

/// The verdict the hook reaches on `frame` with the rule table `m`, where
/// `decisive` is the outcome of the rule lookup for the packet.
pub open spec fn xdp_outcome(frame: Seq<u8>, m: Map<crate::types::RuleKey, Rule>, res: Result<XdpVerdict, ()>) -> bool {
    match packet_info(frame) {
        Err(()) => res is Err,
        Ok(None) => res == Ok::<XdpVerdict, ()>(XdpVerdict { action: XdpAction::XDP_PASS, event: None }),
        Ok(Some(p)) => exists|decisive: Option<Rule>|
            best_of_keys(m, candidate_key_seq(p.src_addr, p.port, p.protocol), decisive)
                && res == Ok::<XdpVerdict, ()>(verdict_for(p, decisive)),
    }
}

/// Reads the source address, source port and protocol of an IPv4 TCP or UDP
/// frame.
pub fn parse_packet(frame: &[u8]) -> (info: Result<Option<PacketInfo>, ()>)
    ensures
        info == packet_info(frame@),
{
    if frame.len() < ETH_HDR_LEN {
        return Err(());
    }
    if !(frame[12] == 0x08 && frame[13] == 0x00) {
        return Ok(None);
    }
    if frame.len() < ETH_HDR_LEN + IPV4_HDR_LEN {
        return Err(());
    }
    let protocol = frame[ETH_HDR_LEN + 9];
    if protocol != PROTO_TCP && protocol != PROTO_UDP {
        return Ok(None);
    }
    let l4_len = if protocol == PROTO_TCP { TCP_HDR_LEN } else { UDP_HDR_LEN };
    if frame.len() < ETH_HDR_LEN + IPV4_HDR_LEN + l4_len {
        return Err(());
    }
    let a = ETH_HDR_LEN + 12;
    let src_addr: u32 = frame[a] as u32 * 16777216 + frame[a + 1] as u32 * 65536
        + frame[a + 2] as u32 * 256 + frame[a + 3] as u32;
    let t = ETH_HDR_LEN + IPV4_HDR_LEN;
    let port: u16 = frame[t] as u16 * 256 + frame[t + 1] as u16;
    Ok(Some(PacketInfo { src_addr, port, protocol }))
}

/// Decides an inbound frame against the rule table: frames that are not
/// IPv4 TCP or UDP pass, packets whose decisive rule blocks are dropped, and
/// the others pass with a log event. `Err` where the frame is too short for
/// a header the hook reads.
pub fn try_use_xdp(frame: &[u8], rules: &RuleMap) -> (res: Result<XdpVerdict, ()>)
    ensures
        xdp_outcome(frame@, rules@, res),
{
    let p = match parse_packet(frame) {
        Err(()) => return Err(()),
        Ok(None) => return Ok(XdpVerdict { action: XdpAction::XDP_PASS, event: None }),
        Ok(Some(p)) => p,
    };
    let decisive = lookup_rule(rules, p.src_addr, p.port, p.protocol);
    let blocked = match decisive {
        Some(r) => match r.action {
            RuleAction::BLOCK => true,
            RuleAction::ALLOW => false,
        },
        None => false,
    };
    if blocked {
        return Ok(XdpVerdict { action: XdpAction::XDP_DROP, event: None });
    }
    let packet_type = if p.protocol == PROTO_TCP { PacketType::TCP } else { PacketType::UDP };
    let event = Event::LogEvent(LogEvent {
        src_addr: p.src_addr,
        port: p.port,
        packet_type,
        direction: FlowDirection::INGRESS,
    });
    let res = Ok(XdpVerdict { action: XdpAction::XDP_PASS, event: Some(event) });
    assert(res == Ok::<XdpVerdict, ()>(verdict_for(p, decisive)));
    res
}

/// The XDP entry point: the verdict of `try_use_xdp`, or an abort without
/// event where the frame could not be read.
pub fn zyra_xdp(frame: &[u8], rules: &RuleMap) -> (verdict: XdpVerdict)
    ensures
        packet_info(frame@) is Err ==> verdict == (XdpVerdict {
            action: XdpAction::XDP_ABORTED,
            event: None,
        }),
        !(packet_info(frame@) is Err) ==> xdp_outcome(frame@, rules@, Ok(verdict)),
{
    match try_use_xdp(frame, rules) {
        Ok(v) => v,
        Err(()) => XdpVerdict { action: XdpAction::XDP_ABORTED, event: None },
    }
}

/// The egress traffic-control hook: it needs a full Ethernet header and
/// otherwise hands every packet on. `Err` where the frame is shorter than an
/// Ethernet header.
pub fn try_use_tc_egress(frame: &[u8]) -> (res: Result<TcAction, ()>)
    ensures
        res == (if frame@.len() < ETH_HDR_LEN {
            Err::<TcAction, ()>(())
        } else {
            Ok(TcAction::TC_ACT_PIPE)
        }),
{
    if frame.len() < ETH_HDR_LEN {
        return Err(());
    }
    Ok(TcAction::TC_ACT_PIPE)
}

/// The traffic-control entry point: the action of `try_use_tc_egress`, or a
/// drop where the frame could not be read.
pub fn zyra_tc(frame: &[u8]) -> (action: TcAction)
    ensures
        action == (if frame@.len() < ETH_HDR_LEN { TcAction::TC_ACT_SHOT } else { TcAction::TC_ACT_PIPE }),
{
    match try_use_tc_egress(frame) {
        Ok(action) => action,
        Err(()) => TcAction::TC_ACT_SHOT,
    }
}

} // verus!
