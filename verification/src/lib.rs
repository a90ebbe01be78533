//! Policy core of the Zyra eBPF firewall: rule model, userspace rule engine,
//! kernel-side rule lookup and packet verdicts, and the event record codec.

pub mod types;
pub mod cli_args;
pub mod ordering;
pub mod rule_engine;
pub mod rule_map;
pub mod lookup;
pub mod xdp;
pub mod event_codec;
pub mod laws;
