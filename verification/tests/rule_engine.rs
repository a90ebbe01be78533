use zyra::rule_engine::{RuleEngine, RuleError};
use zyra::types::{FlowDirection, Rule, RuleAction, RuleKey};

/// Each id gets its own port, so that rules with different ids have
/// different match keys.
fn rule(id: u32, priority: u16) -> Rule {
    Rule::new(id, priority, 0x0100007f, 1000 + id as u16, 6, FlowDirection::INGRESS, RuleAction::ALLOW)
}

#[test]
fn rejects_zero_id() {
    assert!(RuleEngine::validate(&rule(0, 10)).is_err());
}

#[test]
fn rejects_duplicate_ids() {
    let mut engine = RuleEngine::new();
    engine.insert(rule(1, 10)).unwrap();
    assert!(engine.insert(rule(1, 20)).is_err());
}

#[test]
fn orders_by_priority_then_id() {
    let mut engine = RuleEngine::new();
    engine.insert(rule(2, 20)).unwrap();
    engine.insert(rule(1, 10)).unwrap();
    engine.insert(rule(3, 10)).unwrap();
    let ids: Vec<_> = engine.ordered().into_iter().map(|r| r.id).collect();
    assert_eq!(ids, vec![1, 3, 2]);
}

#[test]
fn validate_reports_each_error() {
    assert_eq!(RuleEngine::validate(&rule(0, 10)), Err(RuleError::ZeroId));
    let icmp = Rule::new(5, 10, 0, 0, 1, FlowDirection::INGRESS, RuleAction::BLOCK);
    assert_eq!(RuleEngine::validate(&icmp), Err(RuleError::UnsupportedProtocol(1)));
    assert_eq!(RuleEngine::validate(&rule(5, u16::MAX)), Err(RuleError::ReservedPriority(u16::MAX)));
    // The id check comes before the protocol check, which comes before the priority check.
    let all_wrong = Rule::new(0, u16::MAX, 0, 0, 47, FlowDirection::INGRESS, RuleAction::BLOCK);
    assert_eq!(RuleEngine::validate(&all_wrong), Err(RuleError::ZeroId));
    let proto_and_priority = Rule::new(9, u16::MAX, 0, 0, 47, FlowDirection::INGRESS, RuleAction::BLOCK);
    assert_eq!(RuleEngine::validate(&proto_and_priority), Err(RuleError::UnsupportedProtocol(47)));
}

#[test]
fn validate_accepts_any_tcp_and_udp() {
    for protocol in [0u8, 6, 17] {
        let r = Rule::new(7, u16::MAX - 1, 0, 0, protocol, FlowDirection::EGRESS, RuleAction::BLOCK);
        assert_eq!(RuleEngine::validate(&r), Ok(()));
    }
}

#[test]
fn insert_reports_duplicate_id_and_keeps_engine() {
    let mut engine = RuleEngine::new();
    engine.insert(rule(1, 10)).unwrap();
    assert_eq!(engine.insert(rule(1, 20)), Err(RuleError::DuplicateId(1)));
    assert_eq!(engine.ordered(), vec![rule(1, 10)]);
}

#[test]
fn insert_refuses_invalid_rule() {
    let mut engine = RuleEngine::new();
    assert_eq!(engine.insert(rule(0, 10)), Err(RuleError::ZeroId));
    assert_eq!(engine.insert(rule(4, u16::MAX)), Err(RuleError::ReservedPriority(u16::MAX)));
    assert!(engine.ordered().is_empty());
}

#[test]
fn insert_then_remove_gives_back_the_rule() {
    let mut engine = RuleEngine::new();
    engine.insert(rule(5, 30)).unwrap();
    engine.insert(rule(6, 40)).unwrap();
    assert_eq!(engine.remove(5), Some(rule(5, 30)));
    assert_eq!(engine.remove(5), None);
    assert_eq!(engine.ordered(), vec![rule(6, 40)]);
    // The id is free again.
    engine.insert(rule(5, 1)).unwrap();
    assert_eq!(engine.ordered(), vec![rule(5, 1), rule(6, 40)]);
}

#[test]
fn remove_of_absent_id_is_none() {
    let mut engine = RuleEngine::new();
    assert_eq!(engine.remove(42), None);
}

#[test]
fn ordered_is_the_same_whatever_the_insertion_order() {
    let rules = [rule(10, 5), rule(3, 5), rule(7, 1), rule(1, 9), rule(2, 0)];
    let mut a = RuleEngine::new();
    for r in rules {
        a.insert(r).unwrap();
    }
    let mut b = RuleEngine::new();
    for r in rules.iter().rev() {
        b.insert(*r).unwrap();
    }
    let ids: Vec<u32> = a.ordered().iter().map(|r| r.id).collect();
    assert_eq!(ids, vec![2, 7, 3, 10, 1]);
    assert_eq!(a.ordered(), b.ordered());
}

#[test]
fn action_names() {
    assert_eq!(RuleEngine::action_name(RuleAction::ALLOW), "allow");
    assert_eq!(RuleEngine::action_name(RuleAction::BLOCK), "block");
}

#[test]
fn default_engine_is_empty() {
    let engine = RuleEngine::default();
    assert!(engine.ordered().is_empty());
}

#[test]
fn insert_refuses_taken_match_key() {
    let mut engine = RuleEngine::new();
    let first = Rule::new(1, 10, 0x0100007f, 443, 6, FlowDirection::INGRESS, RuleAction::ALLOW);
    let same_key = Rule::new(2, 20, 0x0100007f, 443, 6, FlowDirection::INGRESS, RuleAction::BLOCK);
    engine.insert(first).unwrap();
    let key = RuleKey { ip: 0x0100007f, port: 443, protocol: 6, direction: FlowDirection::INGRESS };
    assert_eq!(engine.insert(same_key), Err(RuleError::DuplicateKey(key)));
    assert_eq!(engine.ordered(), vec![first]);
    // A taken id is reported before a taken key.
    let same_id_and_key = Rule::new(1, 30, 0x0100007f, 443, 6, FlowDirection::INGRESS, RuleAction::BLOCK);
    assert_eq!(engine.insert(same_id_and_key), Err(RuleError::DuplicateId(1)));
    // The key is free again once its rule is removed.
    engine.remove(1);
    assert_eq!(engine.insert(same_key), Ok(()));
    // The same key in the other direction is a different key.
    let egress = Rule::new(3, 20, 0x0100007f, 443, 6, FlowDirection::EGRESS, RuleAction::BLOCK);
    assert_eq!(engine.insert(egress), Ok(()));
}
