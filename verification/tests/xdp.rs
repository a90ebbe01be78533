use zyra::rule_map::RuleMap;
use zyra::types::{Event, FlowDirection, LogEvent, PacketType, Rule, RuleAction};
use zyra::xdp::{parse_packet, try_use_tc_egress, try_use_xdp, zyra_tc, zyra_xdp, PacketInfo, TcAction, XdpAction, XdpVerdict};

fn frame(ether_type: [u8; 2], protocol: u8, src: [u8; 4], port: [u8; 2], l4_len: usize) -> Vec<u8> {
    let mut f = vec![0u8; 14 + 20 + l4_len];
    f[12] = ether_type[0];
    f[13] = ether_type[1];
    f[14] = 0x45;
    f[23] = protocol;
    f[26..30].copy_from_slice(&src);
    if l4_len >= 2 {
        f[34..36].copy_from_slice(&port);
    }
    f
}

const IPV4: [u8; 2] = [0x08, 0x00];
const SRC: [u8; 4] = [192, 168, 1, 100];

#[test]
fn parses_tcp_source() {
    let f = frame(IPV4, 6, SRC, [0x1f, 0x90], 20);
    assert_eq!(
        parse_packet(&f),
        Ok(Some(PacketInfo { src_addr: 0xC0A8_0164, port: 8080, protocol: 6 }))
    );
}

#[test]
fn parses_udp_source() {
    let f = frame(IPV4, 17, [10, 0, 0, 1], [0x00, 0x35], 8);
    assert_eq!(parse_packet(&f), Ok(Some(PacketInfo { src_addr: 0x0A00_0001, port: 53, protocol: 17 })));
}

#[test]
fn short_frames_are_errors() {
    assert_eq!(parse_packet(&[0u8; 13]), Err(()));
    let mut f = frame(IPV4, 6, SRC, [0, 80], 20);
    f.truncate(33);
    assert_eq!(parse_packet(&f), Err(()));
    // TCP needs a full TCP header, UDP only a UDP header.
    let tcp_short = frame(IPV4, 6, SRC, [0, 80], 19);
    assert_eq!(parse_packet(&tcp_short), Err(()));
    let udp_short = frame(IPV4, 17, SRC, [0, 80], 7);
    assert_eq!(parse_packet(&udp_short), Err(()));
}

#[test]
fn other_traffic_is_not_parsed() {
    let ipv6 = frame([0x86, 0xdd], 6, SRC, [0, 80], 20);
    assert_eq!(parse_packet(&ipv6), Ok(None));
    // A non-IPv4 frame is passed even when it is too short for an IPv4 header.
    assert_eq!(parse_packet(&[0u8; 14]), Ok(None));
    let icmp = frame(IPV4, 1, SRC, [0, 0], 0);
    assert_eq!(parse_packet(&icmp), Ok(None));
}

#[test]
fn blocked_packets_are_dropped_without_event() {
    let mut map = RuleMap::new();
    map.insert(Rule::new(10, 100, 0xC0A8_0164, 80, 6, FlowDirection::INGRESS, RuleAction::BLOCK));
    let f = frame(IPV4, 6, SRC, [0, 80], 20);
    assert_eq!(try_use_xdp(&f, &map), Ok(XdpVerdict { action: XdpAction::XDP_DROP, event: None }));
}

#[test]
fn allowed_and_unmatched_packets_pass_with_event() {
    let mut map = RuleMap::new();
    map.insert(Rule::new(20, 200, 0, 443, 6, FlowDirection::INGRESS, RuleAction::ALLOW));
    let event = |port: u16, packet_type| {
        Some(Event::LogEvent(LogEvent {
            src_addr: 0xC0A8_0164,
            port,
            packet_type,
            direction: FlowDirection::INGRESS,
        }))
    };
    let allowed = frame(IPV4, 6, SRC, [0x01, 0xbb], 20);
    assert_eq!(
        try_use_xdp(&allowed, &map),
        Ok(XdpVerdict { action: XdpAction::XDP_PASS, event: event(443, PacketType::TCP) })
    );
    let unmatched = frame(IPV4, 17, SRC, [0x00, 0x35], 8);
    assert_eq!(
        try_use_xdp(&unmatched, &map),
        Ok(XdpVerdict { action: XdpAction::XDP_PASS, event: event(53, PacketType::UDP) })
    );
}

#[test]
fn allow_rule_outranks_block_rule() {
    let mut map = RuleMap::new();
    map.insert(Rule::new(1, 500, 0, 0, 0, FlowDirection::INGRESS, RuleAction::BLOCK));
    map.insert(Rule::new(2, 50, 0xC0A8_0164, 0, 6, FlowDirection::INGRESS, RuleAction::ALLOW));
    let f = frame(IPV4, 6, SRC, [0, 22], 20);
    assert_eq!(zyra_xdp(&f, &map).action, XdpAction::XDP_PASS);
    let other = frame(IPV4, 6, [1, 2, 3, 4], [0, 22], 20);
    assert_eq!(zyra_xdp(&other, &map), XdpVerdict { action: XdpAction::XDP_DROP, event: None });
}

#[test]
fn unreadable_frames_abort() {
    let map = RuleMap::new();
    assert_eq!(try_use_xdp(&[0u8; 5], &map), Err(()));
    assert_eq!(zyra_xdp(&[0u8; 5], &map), XdpVerdict { action: XdpAction::XDP_ABORTED, event: None });
    let non_ip = [0u8; 20];
    assert_eq!(zyra_xdp(&non_ip, &map), XdpVerdict { action: XdpAction::XDP_PASS, event: None });
}

#[test]
fn tc_hook_needs_an_ethernet_header() {
    assert_eq!(try_use_tc_egress(&[0u8; 13]), Err(()));
    assert_eq!(try_use_tc_egress(&[0u8; 14]), Ok(TcAction::TC_ACT_PIPE));
    assert_eq!(zyra_tc(&[0u8; 3]), TcAction::TC_ACT_SHOT);
    assert_eq!(zyra_tc(&[0u8; 60]), TcAction::TC_ACT_PIPE);
}
