use zyra::ordering::{rule_precedes, sort_by_precedence};
use zyra::types::{FlowDirection, Rule, RuleAction};

fn r(id: u32, priority: u16, port: u16) -> Rule {
    Rule::new(id, priority, 0, port, 6, FlowDirection::INGRESS, RuleAction::BLOCK)
}

#[test]
fn sorts_by_priority_then_id() {
    let sorted = sort_by_precedence(vec![r(4, 2, 1), r(2, 1, 1), r(1, 2, 1), r(3, 1, 1)]);
    let ids: Vec<u32> = sorted.iter().map(|x| x.id).collect();
    assert_eq!(ids, vec![2, 3, 1, 4]);
}

#[test]
fn sort_keeps_order_of_full_ties() {
    // Same priority and id, different ports: input order is kept.
    let input = vec![r(1, 5, 80), r(9, 0, 1), r(1, 5, 22), r(1, 5, 443)];
    let sorted = sort_by_precedence(input);
    assert_eq!(sorted, vec![r(9, 0, 1), r(1, 5, 80), r(1, 5, 22), r(1, 5, 443)]);
}

#[test]
fn sort_of_empty_is_empty() {
    assert!(sort_by_precedence(Vec::new()).is_empty());
}

#[test]
fn precedence_relation() {
    assert!(rule_precedes(&r(9, 1, 0), &r(1, 2, 0)));
    assert!(rule_precedes(&r(1, 2, 0), &r(2, 2, 0)));
    assert!(!rule_precedes(&r(2, 2, 0), &r(2, 2, 7)));
    assert!(!rule_precedes(&r(1, 3, 0), &r(2, 2, 0)));
}

#[test]
fn sort_result_does_not_depend_on_input_order() {
    let rules = vec![r(4, 2, 1), r(2, 1, 2), r(1, 2, 3), r(3, 1, 4), r(5, 0, 5)];
    let mut reversed = rules.clone();
    reversed.reverse();
    let mut rotated = rules.clone();
    rotated.rotate_left(2);
    let expected = sort_by_precedence(rules);
    assert_eq!(sort_by_precedence(reversed), expected);
    assert_eq!(sort_by_precedence(rotated), expected);
    let ids: Vec<u32> = expected.iter().map(|x| x.id).collect();
    assert_eq!(ids, vec![5, 2, 3, 1, 4]);
}
