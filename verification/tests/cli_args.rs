use zyra::cli_args::{FlowDirectionArg, ProtocolArg, RuleActionArg};
use zyra::types::{FlowDirection, RuleAction};

#[test]
fn directions() {
    assert_eq!(FlowDirection::from(FlowDirectionArg::Inbound), FlowDirection::INGRESS);
    assert_eq!(FlowDirection::from(FlowDirectionArg::Outbound), FlowDirection::EGRESS);
}

#[test]
fn actions() {
    assert_eq!(RuleAction::from(RuleActionArg::Allow), RuleAction::ALLOW);
    assert_eq!(RuleAction::from(RuleActionArg::Block), RuleAction::BLOCK);
}

#[test]
fn protocols() {
    assert_eq!(u8::from(ProtocolArg::Tcp), 6);
    assert_eq!(u8::from(ProtocolArg::Udp), 17);
    assert_eq!(u8::from(ProtocolArg::Any), 0);
}
