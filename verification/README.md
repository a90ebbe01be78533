# zyra

Policy core of the Zyra eBPF firewall, verified with Verus.

- `src/types.rs`: rules, match keys, actions, directions and log events.
- `src/rule_engine.rs`: the userspace rule engine (validation, insertion by
  unique id, removal, listing in precedence order).
- `src/ordering.rs`: precedence (priority, then id) and a stable sort by it.
- `src/rule_map.rs`: the rule table the kernel program consults, keyed by
  match key.
- `src/lookup.rs`: the eight exact/wildcard candidate keys of a packet and the
  choice of the decisive rule among them.
- `src/xdp.rs`: reading IPv4 TCP/UDP frames and the XDP and TC verdicts.
- `src/event_codec.rs`: the ring-buffer record of an event.
- `src/cli_args.rs`: command-line choices and their meaning.
- `src/laws.rs`: properties that relate several operations.
- `app/`: the `zyra` command: argument parsing, loading and pinning the kernel
  program, reading and writing the pinned maps, and the event listener.

The kernel program itself (the eBPF object that `app/` loads from
`ZYRA_EBPF_OBJECT`, by default `/usr/lib/zyra/zyra-ebpf.o`) is not built by
this crate. `src/xdp.rs` and `src/lookup.rs` state and verify the decision that
program is meant to make on each frame; they are not the code the kernel runs.
