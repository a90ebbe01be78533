use zyra::lookup::{candidate_keys, lookup_rule};
use zyra::rule_map::RuleMap;
use zyra::types::{FlowDirection, Rule, RuleAction, RuleKey};

const HOST: u32 = 0xC0A8_0164; // 192.168.1.100

fn key(ip: u32, port: u16, protocol: u8) -> RuleKey {
    RuleKey { ip, port, protocol, direction: FlowDirection::INGRESS }
}

#[test]
fn candidates_go_from_exact_to_full_wildcard() {
    let keys = candidate_keys(HOST, 80, 6);
    assert_eq!(
        keys,
        vec![
            key(HOST, 80, 6),
            key(HOST, 0, 6),
            key(HOST, 80, 0),
            key(HOST, 0, 0),
            key(0, 80, 6),
            key(0, 0, 6),
            key(0, 80, 0),
            key(0, 0, 0),
        ]
    );
}

#[test]
fn rule_map_stores_one_rule_per_key() {
    let mut map = RuleMap::new();
    let a = Rule::new(1, 10, HOST, 80, 6, FlowDirection::INGRESS, RuleAction::BLOCK);
    let b = Rule::new(2, 20, HOST, 80, 6, FlowDirection::INGRESS, RuleAction::ALLOW);
    assert_eq!(map.insert(a), None);
    assert_eq!(map.get(&a.key), Some(a));
    assert_eq!(map.insert(b), Some(a));
    assert_eq!(map.get(&a.key), Some(b));
    assert_eq!(map.get(&key(HOST, 81, 6)), None);
}

#[test]
fn no_rule_no_match() {
    let map = RuleMap::new();
    assert_eq!(lookup_rule(&map, HOST, 80, 6), None);
}

#[test]
fn wildcards_match() {
    let mut map = RuleMap::new();
    let https_anywhere = Rule::new(20, 200, 0, 443, 6, FlowDirection::INGRESS, RuleAction::ALLOW);
    let trusted_host = Rule::new(30, 50, 0xC0A8_010A, 0, 6, FlowDirection::INGRESS, RuleAction::ALLOW);
    let block_all = Rule::new(40, 1000, 0, 0, 0, FlowDirection::INGRESS, RuleAction::BLOCK);
    map.insert(https_anywhere);
    map.insert(trusted_host);
    map.insert(block_all);
    assert_eq!(lookup_rule(&map, 0x0A00_0001, 443, 6), Some(https_anywhere));
    assert_eq!(lookup_rule(&map, 0xC0A8_010A, 22, 6), Some(trusted_host));
    assert_eq!(lookup_rule(&map, 0xC0A8_010A, 443, 6), Some(trusted_host));
    assert_eq!(lookup_rule(&map, 0x0A00_0001, 53, 17), Some(block_all));
}

#[test]
fn lower_priority_value_wins_then_lower_id() {
    let mut map = RuleMap::new();
    let exact = Rule::new(10, 100, HOST, 80, 6, FlowDirection::INGRESS, RuleAction::BLOCK);
    let any_port = Rule::new(5, 100, HOST, 0, 6, FlowDirection::INGRESS, RuleAction::ALLOW);
    let any_host = Rule::new(1, 300, 0, 80, 6, FlowDirection::INGRESS, RuleAction::ALLOW);
    map.insert(exact);
    map.insert(any_port);
    map.insert(any_host);
    // Priority 100 ties; id 5 is lower than id 10.
    assert_eq!(lookup_rule(&map, HOST, 80, 6), Some(any_port));
    let urgent = Rule::new(99, 1, 0, 0, 0, FlowDirection::INGRESS, RuleAction::BLOCK);
    map.insert(urgent);
    assert_eq!(lookup_rule(&map, HOST, 80, 6), Some(urgent));
}

#[test]
fn egress_rules_do_not_match_inbound_packets() {
    let mut map = RuleMap::new();
    map.insert(Rule::new(1, 1, HOST, 80, 6, FlowDirection::EGRESS, RuleAction::BLOCK));
    assert_eq!(lookup_rule(&map, HOST, 80, 6), None);
}

#[test]
fn protocol_must_match_or_be_any() {
    let mut map = RuleMap::new();
    let udp = Rule::new(3, 3, HOST, 53, 17, FlowDirection::INGRESS, RuleAction::BLOCK);
    map.insert(udp);
    assert_eq!(lookup_rule(&map, HOST, 53, 6), None);
    assert_eq!(lookup_rule(&map, HOST, 53, 17), Some(udp));
}
