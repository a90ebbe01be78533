use vstd::prelude::*;
use crate::types::{Event, FlowDirection, LogEvent, PacketType, Rule, RuleAction, RuleKey, PROTO_TCP};
use crate::ordering::{is_stable_precedence_sort, precedes, sorted_by_precedence, strictly_sorted_by_precedence};
use crate::rule_engine::{insert_result, is_ordered_listing, rule_is_valid, table_is_well_formed, validation_result, RuleError};
use crate::event_codec::{event_record, read_le16, read_le32, record_event};
use crate::rule_map::keyed_by_own_key;
use crate::lookup::{best_of_keys, candidate_key_seq, key_matches};
use crate::xdp::{packet_info, xdp_outcome, PacketInfo, XdpAction, XdpVerdict};

verus! {

/// Removing the id of a rule that was just accepted gives back that rule
/// and the table as it was before the insertion.
pub proof fn law_insert_then_remove(m: Map<u32, Rule>, rule: Rule)
    requires
        insert_result(m, rule) is Ok,
    ensures
        m.insert(rule.id, rule).contains_key(rule.id),
        m.insert(rule.id, rule)[rule.id] == rule,
        m.insert(rule.id, rule).remove(rule.id) == m,
{
    assert(m.insert(rule.id, rule).remove(rule.id) =~= m);
}

/// Accepting a rule keeps the table well formed.
pub proof fn law_insert_keeps_table_well_formed(m: Map<u32, Rule>, rule: Rule)
    requires
        table_is_well_formed(m),
        insert_result(m, rule) is Ok,
    ensures
        table_is_well_formed(m.insert(rule.id, rule)),
{
}

/// Removing a rule keeps the table well formed.
pub proof fn law_remove_keeps_table_well_formed(m: Map<u32, Rule>, id: u32)
    requires
        table_is_well_formed(m),
    ensures
        table_is_well_formed(m.remove(id)),
{
}

/// Once a rule is accepted, a second rule with the same id is refused as a
/// duplicate id, whatever else it holds.
pub proof fn law_taken_id_is_refused(m: Map<u32, Rule>, rule: Rule, other: Rule)
    requires
        insert_result(m, rule) is Ok,
        rule_is_valid(other),
        other.id == rule.id,
    ensures
        insert_result(m.insert(rule.id, rule), other) == Err::<(), RuleError>(RuleError::DuplicateId(other.id)),
{
}

/// Once a rule is accepted, a valid rule with a free id but the same match
/// key is refused as a duplicate key.
pub proof fn law_taken_key_is_refused(m: Map<u32, Rule>, rule: Rule, other: Rule)
    requires
        insert_result(m, rule) is Ok,
        rule_is_valid(other),
        other.id != rule.id,
        !m.contains_key(other.id),
        other.key == rule.key,
    ensures
        insert_result(m.insert(rule.id, rule), other) == Err::<(), RuleError>(RuleError::DuplicateKey(other.key)),
{
    let m2 = m.insert(rule.id, rule);
    assert(m2.contains_key(rule.id) && m2[rule.id].key == other.key);
}

/// No two rules of `s` share both priority and id.
pub open spec fn distinct_ranks(s: Seq<Rule>) -> bool {
    forall|i: int, j: int|
        0 <= i < j < s.len() ==> !(#[trigger] s[i].priority == #[trigger] s[j].priority && s[i].id == s[j].id)
}

proof fn lemma_distinct_ranks_carry_over(s: Seq<Rule>, t: Seq<Rule>)
    requires
        s.to_multiset() == t.to_multiset(),
        distinct_ranks(t),
    ensures
        distinct_ranks(s),
        forall|x: Rule| s.contains(x) <==> t.contains(x),
{
    broadcast use vstd::seq_lib::group_to_multiset_ensures;

    assert(t.no_duplicates()) by {
        assert forall|i: int, j: int| 0 <= i < t.len() && 0 <= j < t.len() && i != j implies t[i] != t[j] by {
            if i < j {
                assert(!(t[i].priority == t[j].priority && t[i].id == t[j].id));
            } else {
                assert(!(t[j].priority == t[i].priority && t[j].id == t[i].id));
            }
        }
    }
    t.lemma_multiset_has_no_duplicates();
    s.lemma_multiset_has_no_duplicates_conv();
    assert forall|x: Rule| s.contains(x) <==> t.contains(x) by {
        vstd::seq_lib::to_multiset_contains(s, x);
        vstd::seq_lib::to_multiset_contains(t, x);
    }
    assert forall|i: int, j: int| 0 <= i < j < s.len() implies !(#[trigger] s[i].priority == #[trigger] s[j].priority && s[i].id == s[j].id) by {
        assert(s[i] != s[j]);
        assert(s.contains(s[i]) && s.contains(s[j]));
        let k = choose|k: int| 0 <= k < t.len() && t[k] == s[i];
        let l = choose|l: int| 0 <= l < t.len() && t[l] == s[j];
        if k < l {
            assert(!(t[k].priority == t[l].priority && t[k].id == t[l].id));
        } else if l < k {
            assert(!(t[l].priority == t[k].priority && t[l].id == t[k].id));
        }
    }
}

proof fn lemma_sorted_distinct_is_strict(s: Seq<Rule>)
    requires
        sorted_by_precedence(s),
        distinct_ranks(s),
    ensures
        strictly_sorted_by_precedence(s),
{
    assert forall|i: int, j: int| 0 <= i < j < s.len() implies precedes(#[trigger] s[i], #[trigger] s[j]) by {
        assert(!precedes(s[j], s[i]));
        assert(!(s[i].priority == s[j].priority && s[i].id == s[j].id));
    }
}

/// Sorting by precedence does not depend on the input order: two
/// permutations of one list of rules with pairwise distinct (priority, id)
/// sort to the same list.
pub proof fn law_sort_is_determined_by_the_rules(a: Seq<Rule>, b: Seq<Rule>, sa: Seq<Rule>, sb: Seq<Rule>)
    requires
        a.to_multiset() == b.to_multiset(),
        distinct_ranks(a),
        is_stable_precedence_sort(a, sa),
        is_stable_precedence_sort(b, sb),
    ensures
        sa == sb,
{
    lemma_distinct_ranks_carry_over(sa, a);
    lemma_distinct_ranks_carry_over(sb, a);
    lemma_sorted_distinct_is_strict(sa);
    lemma_sorted_distinct_is_strict(sb);
    assert forall|x: Rule| sa.contains(x) <==> sb.contains(x) by {}
    lemma_strictly_sorted_same_elements(sa, sb);
}

proof fn lemma_strictly_sorted_same_elements(s1: Seq<Rule>, s2: Seq<Rule>)
    requires
        strictly_sorted_by_precedence(s1),
        strictly_sorted_by_precedence(s2),
        forall|x: Rule| s1.contains(x) <==> s2.contains(x),
    ensures
        s1 == s2,
    decreases s1.len(),
{
    if s1.len() == 0 {
        if s2.len() > 0 {
            assert(s2.contains(s2[0]));
        }
        assert(s1 =~= s2);
    } else {
        assert(s1.contains(s1[0]));
        assert(s2.len() > 0);
        assert(s2.contains(s2[0]));
        let j = choose|j: int| 0 <= j < s2.len() && s2[j] == s1[0];
        let k = choose|k: int| 0 <= k < s1.len() && s1[k] == s2[0];
        if j > 0 {
            assert(precedes(s2[0], s2[j]));
            if k > 0 {
                assert(precedes(s1[0], s1[k]));
            }
        }
        assert(s1[0] == s2[0]);
        let t1 = s1.drop_first();
        let t2 = s2.drop_first();
        assert forall|x: Rule| t1.contains(x) <==> t2.contains(x) by {
            if t1.contains(x) {
                let i = choose|i: int| 0 <= i < t1.len() && t1[i] == x;
                assert(s1[i + 1] == x);
                assert(precedes(s1[0], s1[i + 1]));
                assert(s1.contains(x));
                let jj = choose|jj: int| 0 <= jj < s2.len() && s2[jj] == x;
                assert(jj != 0);
                assert(t2[jj - 1] == x);
            }
            if t2.contains(x) {
                let i = choose|i: int| 0 <= i < t2.len() && t2[i] == x;
                assert(s2[i + 1] == x);
                assert(precedes(s2[0], s2[i + 1]));
                assert(s2.contains(x));
                let jj = choose|jj: int| 0 <= jj < s1.len() && s1[jj] == x;
                assert(jj != 0);
                assert(t1[jj - 1] == x);
            }
        }
        lemma_strictly_sorted_same_elements(t1, t2);
        assert(s1 =~= seq![s1[0]] + t1);
        assert(s2 =~= seq![s2[0]] + t2);
    }
}

/// The listing of a table in precedence order does not depend on anything
/// but the table: two listings of the same table are equal.
pub proof fn law_ordered_listing_is_unique(m: Map<u32, Rule>, s1: Seq<Rule>, s2: Seq<Rule>)
    requires
        is_ordered_listing(m, s1),
        is_ordered_listing(m, s2),
    ensures
        s1 == s2,
{
    assert forall|x: Rule| s1.contains(x) <==> s2.contains(x) by {
        if s1.contains(x) {
            let i = choose|i: int| 0 <= i < s1.len() && s1[i] == x;
            assert(m.contains_key(s1[i].id));
        }
        if s2.contains(x) {
            let i = choose|i: int| 0 <= i < s2.len() && s2[i] == x;
            assert(m.contains_key(s2[i].id));
        }
    }
    lemma_strictly_sorted_same_elements(s1, s2);
}

/// The candidate keys of a packet are exactly the keys that match it.
pub proof fn law_candidates_are_matching_keys(ip: u32, port: u16, protocol: u8, k: RuleKey)
    ensures
        key_matches(k, ip, port, protocol) <==> candidate_key_seq(ip, port, protocol).contains(k),
{
    let c = candidate_key_seq(ip, port, protocol);
    if key_matches(k, ip, port, protocol) {
        let i: int = (if k.ip == ip { 0int } else { 4int }) + (if k.protocol == protocol { 0int } else { 2int })
            + (if k.port == port { 0int } else { 1int });
        assert(c[i] == k);
    }
    if c.contains(k) {
        let i = choose|i: int| 0 <= i < c.len() && c[i] == k;
    }
}

/// The lookup of a packet finds nothing exactly when no rule of the table
/// matches it; otherwise it finds a matching rule that no matching rule
/// precedes (lower priority value, then lower id).
pub proof fn law_lookup_is_best_match(m: Map<RuleKey, Rule>, ip: u32, port: u16, protocol: u8, res: Option<Rule>)
    requires
        best_of_keys(m, candidate_key_seq(ip, port, protocol), res),
    ensures
        res is None <==> forall|k: RuleKey| key_matches(k, ip, port, protocol) ==> !m.contains_key(k),
        res matches Some(r) ==> exists|k: RuleKey| key_matches(k, ip, port, protocol) && m.contains_key(k) && m[k] == r,
        res matches Some(r) ==> forall|k: RuleKey| key_matches(k, ip, port, protocol) && m.contains_key(k) ==> !precedes(m[k], r),
        keyed_by_own_key(m) ==> (res matches Some(r) ==> key_matches(r.key, ip, port, protocol)),
{
    let c = candidate_key_seq(ip, port, protocol);
    assert forall|k: RuleKey| key_matches(k, ip, port, protocol) implies c.contains(k) by {
        law_candidates_are_matching_keys(ip, port, protocol, k);
    }
    match res {
        None => {
            assert forall|k: RuleKey| key_matches(k, ip, port, protocol) implies !m.contains_key(k) by {
                let i = choose|i: int| 0 <= i < c.len() && c[i] == k;
            }
        },
        Some(r) => {
            let w = choose|w: int| #![trigger c[w]]
                0 <= w < c.len() && m.contains_key(c[w]) && m[c[w]] == r
                    && forall|j: int| #![trigger c[j]] 0 <= j < w && m.contains_key(c[j]) ==> precedes(r, m[c[j]]);
            law_candidates_are_matching_keys(ip, port, protocol, c[w]);
            assert(c.contains(c[w]));
            assert(key_matches(c[w], ip, port, protocol));
            assert forall|k: RuleKey| key_matches(k, ip, port, protocol) && m.contains_key(k) implies !precedes(m[k], r) by {
                let i = choose|i: int| 0 <= i < c.len() && c[i] == k;
            }
        },
    }
}

/// A lookup has exactly one outcome.
pub proof fn law_lookup_outcome_is_unique(m: Map<RuleKey, Rule>, keys: Seq<RuleKey>, a: Option<Rule>, b: Option<Rule>)
    requires
        best_of_keys(m, keys, a),
        best_of_keys(m, keys, b),
    ensures
        a == b,
{
    let n = keys.len() as int;
    match (a, b) {
        (Some(ra), Some(rb)) => {
            let wa = choose|w: int| #![trigger keys[w]]
                0 <= w < n && m.contains_key(keys[w]) && m[keys[w]] == ra
                    && forall|j: int| #![trigger keys[j]] 0 <= j < w && m.contains_key(keys[j]) ==> precedes(ra, m[keys[j]]);
            let wb = choose|w: int| #![trigger keys[w]]
                0 <= w < n && m.contains_key(keys[w]) && m[keys[w]] == rb
                    && forall|j: int| #![trigger keys[j]] 0 <= j < w && m.contains_key(keys[j]) ==> precedes(rb, m[keys[j]]);
            assert(!precedes(m[keys[wa]], rb));
            assert(!precedes(m[keys[wb]], ra));
            if wa < wb {
                assert(precedes(rb, m[keys[wa]]));
            } else if wb < wa {
                assert(precedes(ra, m[keys[wb]]));
            }
        },
        (Some(ra), None) => {
            let wa = choose|w: int| #![trigger keys[w]] 0 <= w < n && m.contains_key(keys[w]) && m[keys[w]] == ra;
        },
        (None, Some(rb)) => {
            let wb = choose|w: int| #![trigger keys[w]] 0 <= w < n && m.contains_key(keys[w]) && m[keys[w]] == rb;
        },
        (None, None) => {},
    }
}

/// A readable TCP or UDP packet that no rule matches passes, and is logged.
pub proof fn law_unmatched_packet_passes(frame: Seq<u8>, m: Map<RuleKey, Rule>, res: Result<XdpVerdict, ()>, p: PacketInfo)
    requires
        xdp_outcome(frame, m, res),
        packet_info(frame) == Ok::<Option<PacketInfo>, ()>(Some(p)),
        forall|k: RuleKey| key_matches(k, p.src_addr, p.port, p.protocol) ==> !m.contains_key(k),
    ensures
        res == Ok::<XdpVerdict, ()>(XdpVerdict {
            action: XdpAction::XDP_PASS,
            event: Some(Event::LogEvent(LogEvent {
                src_addr: p.src_addr,
                port: p.port,
                packet_type: if p.protocol == PROTO_TCP { PacketType::TCP } else { PacketType::UDP },
                direction: FlowDirection::INGRESS,
            })),
        }),
{
    let c = candidate_key_seq(p.src_addr, p.port, p.protocol);
    let d = choose|d: Option<Rule>| best_of_keys(m, c, d) && res == Ok::<XdpVerdict, ()>(crate::xdp::verdict_for(p, d));
    law_lookup_is_best_match(m, p.src_addr, p.port, p.protocol, d);
}

/// A readable TCP or UDP packet whose decisive rule blocks is dropped, and
/// nothing is logged.
pub proof fn law_blocked_packet_is_dropped(frame: Seq<u8>, m: Map<RuleKey, Rule>, res: Result<XdpVerdict, ()>, p: PacketInfo, r: Rule)
    requires
        xdp_outcome(frame, m, res),
        packet_info(frame) == Ok::<Option<PacketInfo>, ()>(Some(p)),
        best_of_keys(m, candidate_key_seq(p.src_addr, p.port, p.protocol), Some(r)),
        r.action == RuleAction::BLOCK,
    ensures
        res == Ok::<XdpVerdict, ()>(XdpVerdict { action: XdpAction::XDP_DROP, event: None }),
{
    let c = candidate_key_seq(p.src_addr, p.port, p.protocol);
    let d = choose|d: Option<Rule>| best_of_keys(m, c, d) && res == Ok::<XdpVerdict, ()>(crate::xdp::verdict_for(p, d));
    law_lookup_outcome_is_unique(m, c, d, Some(r));
}

/// A readable TCP or UDP packet whose decisive rule allows it passes, and
/// is logged.
pub proof fn law_allowed_packet_passes(frame: Seq<u8>, m: Map<RuleKey, Rule>, res: Result<XdpVerdict, ()>, p: PacketInfo, r: Rule)
    requires
        xdp_outcome(frame, m, res),
        packet_info(frame) == Ok::<Option<PacketInfo>, ()>(Some(p)),
        best_of_keys(m, candidate_key_seq(p.src_addr, p.port, p.protocol), Some(r)),
        r.action == RuleAction::ALLOW,
    ensures
        res == Ok::<XdpVerdict, ()>(XdpVerdict {
            action: XdpAction::XDP_PASS,
            event: Some(Event::LogEvent(LogEvent {
                src_addr: p.src_addr,
                port: p.port,
                packet_type: if p.protocol == PROTO_TCP { PacketType::TCP } else { PacketType::UDP },
                direction: FlowDirection::INGRESS,
            })),
        }),
{
    let c = candidate_key_seq(p.src_addr, p.port, p.protocol);
    let d = choose|d: Option<Rule>| best_of_keys(m, c, d) && res == Ok::<XdpVerdict, ()>(crate::xdp::verdict_for(p, d));
    law_lookup_outcome_is_unique(m, c, d, Some(r));
}

/// Precedence compares priorities as unsigned 16-bit numbers, lower first,
/// and breaks a tie in priority by the lower id; a rule never precedes one
/// with the same priority and id.
pub proof fn law_precedence_is_unsigned_priority_then_id(a: Rule, b: Rule)
    ensures
        a.priority < b.priority ==> precedes(a, b) && !precedes(b, a),
        a.priority == b.priority && a.id < b.id ==> precedes(a, b) && !precedes(b, a),
        a.priority == b.priority && a.id == b.id ==> !precedes(a, b) && !precedes(b, a),
{
}

/// In a sorted list, a rule with a lower priority value (as an unsigned
/// number), or the same priority and a lower id, comes first.
pub proof fn law_sort_lists_lower_priority_first(input: Seq<Rule>, out: Seq<Rule>, i: int, j: int)
    requires
        is_stable_precedence_sort(input, out),
        0 <= i < out.len(),
        0 <= j < out.len(),
        out[i].priority < out[j].priority || (out[i].priority == out[j].priority && out[i].id < out[j].id),
    ensures
        i < j,
{
    law_precedence_is_unsigned_priority_then_id(out[i], out[j]);
    if j < i {
        assert(!precedes(out[i], out[j]));
    }
}

/// In the engine's listing, a rule with a lower priority value (as an
/// unsigned number), or the same priority and a lower id, comes first.
pub proof fn law_listing_puts_lower_priority_first(m: Map<u32, Rule>, s: Seq<Rule>, i: int, j: int)
    requires
        is_ordered_listing(m, s),
        0 <= i < s.len(),
        0 <= j < s.len(),
        s[i].priority < s[j].priority || (s[i].priority == s[j].priority && s[i].id < s[j].id),
    ensures
        i < j,
{
    law_precedence_is_unsigned_priority_then_id(s[i], s[j]);
    if j < i {
        assert(precedes(s[j], s[i]));
    }
}

/// The rule found for a packet has the least priority value (as an unsigned
/// number) of all table rules whose key matches the packet field by field
/// (each of address, port and protocol equal or zero, direction inbound),
/// and the least id among those with that priority.
pub proof fn law_lookup_winner_has_least_priority(
    m: Map<RuleKey, Rule>,
    ip: u32,
    port: u16,
    protocol: u8,
    r: Rule,
    k: RuleKey,
)
    requires
        best_of_keys(m, candidate_key_seq(ip, port, protocol), Some(r)),
        k.ip == ip || k.ip == 0,
        k.port == port || k.port == 0,
        k.protocol == protocol || k.protocol == 0,
        k.direction == FlowDirection::INGRESS,
        m.contains_key(k),
    ensures
        r.priority <= m[k].priority,
        r.priority == m[k].priority ==> r.id <= m[k].id,
{
    law_lookup_is_best_match(m, ip, port, protocol, Some(r));
    assert(key_matches(k, ip, port, protocol));
    assert(!precedes(m[k], r));
    law_precedence_is_unsigned_priority_then_id(m[k], r);
}

/// Validation reads only the id, the protocol and the priority: a rule is
/// accepted exactly when its id is not 0, its protocol is 0 (any), 6 (TCP)
/// or 17 (UDP), and its priority is not 65535; the first failing check, in
/// that order, names the error.
pub proof fn law_validation_reads_id_protocol_priority(rule: Rule)
    ensures
        validation_result(rule) is Ok <==> rule.id != 0 && (rule.key.protocol == 0 || rule.key.protocol == 6
            || rule.key.protocol == 17) && rule.priority != 65535,
        rule.id == 0 ==> validation_result(rule) == Err::<(), RuleError>(RuleError::ZeroId),
        rule.id != 0 && !(rule.key.protocol == 0 || rule.key.protocol == 6 || rule.key.protocol == 17)
            ==> validation_result(rule) == Err::<(), RuleError>(RuleError::UnsupportedProtocol(rule.key.protocol)),
        rule.id != 0 && (rule.key.protocol == 0 || rule.key.protocol == 6 || rule.key.protocol == 17)
            && rule.priority == 65535 ==> validation_result(rule) == Err::<(), RuleError>(RuleError::ReservedPriority(65535)),
{
}

/// Two rules that agree on id, protocol and priority validate alike,
/// whatever their address, port, direction and action.
pub proof fn law_validation_ignores_other_fields(a: Rule, b: Rule)
    requires
        a.id == b.id,
        a.key.protocol == b.key.protocol,
        a.priority == b.priority,
    ensures
        validation_result(a) == validation_result(b),
{
    law_validation_reads_id_protocol_priority(a);
    law_validation_reads_id_protocol_priority(b);
}

/// Insertion succeeds exactly when the rule is valid, its id is free and no
/// installed rule has a key equal to its key in every field (address, port,
/// protocol, direction). A duplicate-key refusal names the new rule's key,
/// and some installed rule has that key in every field.
pub proof fn law_insert_accepts_exactly_fresh_ids_and_keys(m: Map<u32, Rule>, rule: Rule)
    ensures
        insert_result(m, rule) is Ok <==> rule.id != 0 && (rule.key.protocol == 0 || rule.key.protocol == 6
            || rule.key.protocol == 17) && rule.priority != 65535 && !m.contains_key(rule.id)
            && forall|id: u32| #[trigger] m.contains_key(id) ==> !(m[id].key.ip == rule.key.ip
                && m[id].key.port == rule.key.port && m[id].key.protocol == rule.key.protocol
                && m[id].key.direction == rule.key.direction),
        insert_result(m, rule) matches Err(RuleError::DuplicateKey(k)) ==> k == rule.key && exists|id: u32|
            #[trigger] m.contains_key(id) && m[id].key.ip == rule.key.ip && m[id].key.port == rule.key.port
                && m[id].key.protocol == rule.key.protocol && m[id].key.direction == rule.key.direction,
{
    law_validation_reads_id_protocol_priority(rule);
    if insert_result(m, rule) is Ok {
        assert forall|id: u32| #[trigger] m.contains_key(id) implies !(m[id].key.ip == rule.key.ip
            && m[id].key.port == rule.key.port && m[id].key.protocol == rule.key.protocol
            && m[id].key.direction == rule.key.direction) by {
            if m[id].key.ip == rule.key.ip && m[id].key.port == rule.key.port
                && m[id].key.protocol == rule.key.protocol && m[id].key.direction == rule.key.direction {
                assert(m[id].key == rule.key);
            }
        }
    }
    if insert_result(m, rule) matches Err(RuleError::DuplicateKey(k)) {
        let id = choose|id: u32| #[trigger] m.contains_key(id) && m[id].key == rule.key;
        assert(m.contains_key(id));
    }
}

/// What the XDP hook reads from a frame, byte by byte: frames shorter than
/// 14 bytes are unreadable; a frame whose bytes 12 and 13 are not 0x08, 0x00
/// is not IPv4 and is not looked at further; an IPv4 frame shorter than 34
/// bytes is unreadable; an IPv4 frame whose byte 23 is neither 6 nor 17 is
/// not looked at further; a TCP frame needs 54 bytes and a UDP frame 42.
/// Otherwise the source address is bytes 26 to 29 and the source port bytes
/// 34 and 35, both big-endian, whatever the other bytes hold.
pub proof fn law_packet_fields_are_read_at_fixed_offsets(frame: Seq<u8>)
    ensures
        frame.len() < 14 ==> packet_info(frame) == Err::<Option<PacketInfo>, ()>(()),
        frame.len() >= 14 && !(frame[12] == 0x08 && frame[13] == 0x00) ==> packet_info(frame) == Ok::<
            Option<PacketInfo>,
            (),
        >(None),
        frame.len() >= 14 && frame[12] == 0x08 && frame[13] == 0x00 && frame.len() < 34 ==> packet_info(frame)
            == Err::<Option<PacketInfo>, ()>(()),
        frame.len() >= 34 && frame[12] == 0x08 && frame[13] == 0x00 && frame[23] != 6 && frame[23] != 17
            ==> packet_info(frame) == Ok::<Option<PacketInfo>, ()>(None),
        frame.len() >= 34 && frame[12] == 0x08 && frame[13] == 0x00 && (frame[23] == 6 && frame.len() < 54
            || frame[23] == 17 && frame.len() < 42) ==> packet_info(frame) == Err::<Option<PacketInfo>, ()>(()),
        frame.len() >= 14 && frame[12] == 0x08 && frame[13] == 0x00 && (frame[23] == 6 && frame.len() >= 54
            || frame[23] == 17 && frame.len() >= 42) ==> packet_info(frame) == Ok::<Option<PacketInfo>, ()>(
            Some(PacketInfo {
                src_addr: (frame[26] as int * 16777216 + frame[27] as int * 65536 + frame[28] as int * 256
                    + frame[29] as int) as u32,
                port: (frame[34] as int * 256 + frame[35] as int) as u16,
                protocol: frame[23],
            }),
        ),
{
}

proof fn lemma_read_le32_value(b: Seq<u8>, off: int)
    requires
        0 <= off,
        off + 4 <= b.len(),
    ensures
        read_le32(b, off) as int == b[off] as int + b[off + 1] as int * 256 + b[off + 2] as int * 65536
            + b[off + 3] as int * 16777216,
{
    let (x0, x1, x2, x3) = (b[off], b[off + 1], b[off + 2], b[off + 3]);
    assert((x0 as u32) | ((x1 as u32) << 8u32) | ((x2 as u32) << 16u32) | ((x3 as u32) << 24u32)
        == x0 as u32 + (x1 as u32) * 256 + (x2 as u32) * 65536 + (x3 as u32) * 16777216) by (bit_vector);
}

proof fn lemma_le_bytes_value(a: u32, p: u16)
    ensures
        (a & 0xff) as u8 == (a % 256) as u8,
        ((a >> 8u32) & 0xff) as u8 == ((a / 256) % 256) as u8,
        ((a >> 16u32) & 0xff) as u8 == ((a / 65536) % 256) as u8,
        ((a >> 24u32) & 0xff) as u8 == (a / 16777216) as u8,
        (p & 0xff) as u8 == (p % 256) as u8,
        ((p >> 8u16) & 0xff) as u8 == (p / 256) as u8,
{
    assert((a & 0xff) as u8 == (a % 256) as u8) by (bit_vector);
    assert(((a >> 8u32) & 0xff) as u8 == ((a / 256) % 256) as u8) by (bit_vector);
    assert(((a >> 16u32) & 0xff) as u8 == ((a / 65536) % 256) as u8) by (bit_vector);
    assert(((a >> 24u32) & 0xff) as u8 == (a / 16777216) as u8) by (bit_vector);
    assert((p & 0xff) as u8 == (p % 256) as u8) by (bit_vector);
    assert(((p >> 8u16) & 0xff) as u8 == (p / 256) as u8) by (bit_vector);
}

/// The event record, byte by byte: four zero bytes for the tag, the source
/// address least significant byte first, the port least significant byte
/// first, two zero bytes, then the packet type (0 for TCP, 1 for UDP) and the
/// direction (0 for inbound, 1 for outbound), each as a little-endian 32-bit
/// number.
pub proof fn law_event_record_bytes(l: LogEvent)
    ensures
        event_record(Event::LogEvent(l)) == seq![
            0u8, 0u8, 0u8, 0u8,
            (l.src_addr % 256) as u8, ((l.src_addr / 256) % 256) as u8,
            ((l.src_addr / 65536) % 256) as u8, (l.src_addr / 16777216) as u8,
            (l.port % 256) as u8, (l.port / 256) as u8,
            0u8, 0u8,
            if l.packet_type == PacketType::TCP { 0u8 } else { 1u8 }, 0u8, 0u8, 0u8,
            if l.direction == FlowDirection::INGRESS { 0u8 } else { 1u8 }, 0u8, 0u8, 0u8
        ],
{
    lemma_le_bytes_value(l.src_addr, l.port);
    lemma_le_bytes_value(0, 0);
    lemma_le_bytes_value(1, 0);
    assert(event_record(Event::LogEvent(l)) =~= seq![
        0u8, 0u8, 0u8, 0u8,
        (l.src_addr % 256) as u8, ((l.src_addr / 256) % 256) as u8,
        ((l.src_addr / 65536) % 256) as u8, (l.src_addr / 16777216) as u8,
        (l.port % 256) as u8, (l.port / 256) as u8,
        0u8, 0u8,
        if l.packet_type == PacketType::TCP { 0u8 } else { 1u8 }, 0u8, 0u8, 0u8,
        if l.direction == FlowDirection::INGRESS { 0u8 } else { 1u8 }, 0u8, 0u8, 0u8
    ]);
}

/// Reading a record, byte by byte: only a record of 20 bytes whose tag bytes
/// 0 to 3 are zero, whose packet-type bytes 12 to 15 read 0 or 1 and whose
/// direction bytes 16 to 19 read 0 or 1 (little-endian) holds an event. Its
/// address is bytes 4 to 7 and its port bytes 8 and 9, least significant
/// first; type 0 is TCP and 1 UDP; direction 0 is inbound and 1 outbound.
/// Bytes 10 and 11 are not read.
pub proof fn law_event_record_reading(b: Seq<u8>)
    ensures
        b.len() != 20 ==> record_event(b) is None,
        b.len() == 20 ==> record_event(b) == (if b[0] == 0 && b[1] == 0 && b[2] == 0 && b[3] == 0 && b[12] <= 1
            && b[13] == 0 && b[14] == 0 && b[15] == 0 && b[16] <= 1 && b[17] == 0 && b[18] == 0 && b[19] == 0 {
            Some(Event::LogEvent(LogEvent {
                src_addr: (b[4] as int + b[5] as int * 256 + b[6] as int * 65536 + b[7] as int * 16777216) as u32,
                port: (b[8] as int + b[9] as int * 256) as u16,
                packet_type: if b[12] == 0 { PacketType::TCP } else { PacketType::UDP },
                direction: if b[16] == 0 { FlowDirection::INGRESS } else { FlowDirection::EGRESS },
            }))
        } else {
            None
        }),
{
    if b.len() == 20 {
        lemma_read_le32_value(b, 0);
        lemma_read_le32_value(b, 4);
        lemma_read_le32_value(b, 12);
        lemma_read_le32_value(b, 16);
        let (x0, x1) = (b[8], b[9]);
        assert((x0 as u16) | ((x1 as u16) << 8u16) == x0 as u16 + (x1 as u16) * 256) by (bit_vector);
        assert(read_le16(b, 8) as int == b[8] as int + b[9] as int * 256);
    }
}

/// A packet finds a rule exactly when the table holds a rule under a key
/// that matches it field by field (each of address, port and protocol equal
/// to the packet's or zero, direction inbound), and the rule it finds is
/// stored under such a key.
pub proof fn law_lookup_finds_a_rule_iff_one_matches(
    m: Map<RuleKey, Rule>,
    ip: u32,
    port: u16,
    protocol: u8,
    res: Option<Rule>,
)
    requires
        best_of_keys(m, candidate_key_seq(ip, port, protocol), res),
    ensures
        res is Some <==> exists|k: RuleKey| #[trigger] m.contains_key(k) && (k.ip == ip || k.ip == 0) && (k.port == port
            || k.port == 0) && (k.protocol == protocol || k.protocol == 0) && k.direction == FlowDirection::INGRESS,
        res matches Some(r) ==> exists|k: RuleKey| #[trigger] m.contains_key(k) && m[k] == r && (k.ip == ip || k.ip == 0)
            && (k.port == port || k.port == 0) && (k.protocol == protocol || k.protocol == 0)
            && k.direction == FlowDirection::INGRESS,
{
    law_lookup_is_best_match(m, ip, port, protocol, res);
    if res is None {
        if exists|k: RuleKey| #[trigger] m.contains_key(k) && (k.ip == ip || k.ip == 0) && (k.port == port
            || k.port == 0) && (k.protocol == protocol || k.protocol == 0) && k.direction == FlowDirection::INGRESS {
            let k = choose|k: RuleKey| #[trigger] m.contains_key(k) && (k.ip == ip || k.ip == 0) && (k.port == port
                || k.port == 0) && (k.protocol == protocol || k.protocol == 0) && k.direction == FlowDirection::INGRESS;
            assert(key_matches(k, ip, port, protocol));
        }
    }
    if let Some(r) = res {
        let k = choose|k: RuleKey| key_matches(k, ip, port, protocol) && m.contains_key(k) && m[k] == r;
        assert(m.contains_key(k));
    }
}

} // verus!
