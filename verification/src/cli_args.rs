use vstd::prelude::*;
use vstd::std_specs::convert::FromSpecImpl;
use crate::types::{FlowDirection, RuleAction, ANY_PROTOCOL, PROTO_TCP, PROTO_UDP};

verus! {

/// Direction as given on the command line.
#[derive(Clone, Copy, Debug, PartialEq, Eq, Structural)]
pub enum FlowDirectionArg {
    Inbound,
    Outbound,
}

/// Action as given on the command line.
#[derive(Clone, Copy, Debug, PartialEq, Eq, Structural)]
pub enum RuleActionArg {
    Allow,
    Block,
}

/// Protocol as given on the command line.
#[derive(Clone, Copy, Debug, PartialEq, Eq, Structural)]
pub enum ProtocolArg {
    Tcp,
    Udp,
    Any,
}

/// Inbound is ingress, outbound is egress.
pub open spec fn direction_of_arg(arg: FlowDirectionArg) -> FlowDirection {
    match arg {
        FlowDirectionArg::Inbound => FlowDirection::INGRESS,
        FlowDirectionArg::Outbound => FlowDirection::EGRESS,
    }
}

/// The rule action named on the command line.
pub open spec fn action_of_arg(arg: RuleActionArg) -> RuleAction {
    match arg {
        RuleActionArg::Allow => RuleAction::ALLOW,
        RuleActionArg::Block => RuleAction::BLOCK,
    }
}

/// The IP protocol number of a command-line protocol; any is the wildcard.
pub open spec fn protocol_of_arg(arg: ProtocolArg) -> u8 {
    match arg {
        ProtocolArg::Tcp => PROTO_TCP,
        ProtocolArg::Udp => PROTO_UDP,
        ProtocolArg::Any => ANY_PROTOCOL,
    }
}

impl From<FlowDirectionArg> for FlowDirection {
    fn from(arg: FlowDirectionArg) -> (d: Self) {
        match arg {
            FlowDirectionArg::Inbound => FlowDirection::INGRESS,
            FlowDirectionArg::Outbound => FlowDirection::EGRESS,
        }
    }
}

impl FromSpecImpl<FlowDirectionArg> for FlowDirection {
    open spec fn obeys_from_spec() -> bool {
        true
    }

    open spec fn from_spec(arg: FlowDirectionArg) -> Self {
        direction_of_arg(arg)
    }
}

impl From<RuleActionArg> for RuleAction {
    fn from(arg: RuleActionArg) -> (a: Self) {
        match arg {
            RuleActionArg::Allow => RuleAction::ALLOW,
            RuleActionArg::Block => RuleAction::BLOCK,
        }
    }
}

impl FromSpecImpl<RuleActionArg> for RuleAction {
    open spec fn obeys_from_spec() -> bool {
        true
    }

    open spec fn from_spec(arg: RuleActionArg) -> Self {
        action_of_arg(arg)
    }
}

impl From<ProtocolArg> for u8 {
    fn from(arg: ProtocolArg) -> (p: Self) {
        match arg {
            ProtocolArg::Tcp => 6,
            ProtocolArg::Udp => 17,
            ProtocolArg::Any => 0,
        }
    }
}

impl FromSpecImpl<ProtocolArg> for u8 {
    open spec fn obeys_from_spec() -> bool {
        true
    }

    open spec fn from_spec(arg: ProtocolArg) -> Self {
        protocol_of_arg(arg)
    }
}

} // verus!
