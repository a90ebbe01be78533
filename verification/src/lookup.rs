use vstd::prelude::*;
use crate::types::{FlowDirection, Rule, RuleKey};
use crate::ordering::{precedes, rule_precedes};
use crate::rule_map::RuleMap;

verus! {

/// The keys looked up for an inbound packet, from the exact key to the full
/// wildcard: address, then port, then protocol are widened to "any".
pub open spec fn candidate_key_seq(ip: u32, port: u16, protocol: u8) -> Seq<RuleKey> {
    let d = FlowDirection::INGRESS;
    seq![
        RuleKey { ip, port, protocol, direction: d },
        RuleKey { ip, port: 0, protocol, direction: d },
        RuleKey { ip, port, protocol: 0, direction: d },
        RuleKey { ip, port: 0, protocol: 0, direction: d },
        RuleKey { ip: 0, port, protocol, direction: d },
        RuleKey { ip: 0, port: 0, protocol, direction: d },
        RuleKey { ip: 0, port, protocol: 0, direction: d },
        RuleKey { ip: 0, port: 0, protocol: 0, direction: d },
    ]
}

/// A rule key matches an inbound packet when each of its fields equals the
/// packet's or is the wildcard.
pub open spec fn key_matches(k: RuleKey, ip: u32, port: u16, protocol: u8) -> bool {
    &&& k.ip == ip || k.ip == 0
    &&& k.port == port || k.port == 0
    &&& k.protocol == protocol || k.protocol == 0
    &&& k.direction == FlowDirection::INGRESS
}

/// No key among the first `n` of `keys` is in the table.
pub open spec fn none_found(m: Map<RuleKey, Rule>, keys: Seq<RuleKey>, n: int) -> bool {
    forall|j: int| #![trigger keys[j]] 0 <= j < n ==> !m.contains_key(keys[j])
}

/// Among the rules stored under the first `n` of `keys`, `r` is the one that
/// wins: none precedes it, and it is the first found among those it ties
/// with.
pub open spec fn wins_among(m: Map<RuleKey, Rule>, keys: Seq<RuleKey>, n: int, r: Rule) -> bool {
    &&& forall|j: int| #![trigger keys[j]] 0 <= j < n && m.contains_key(keys[j]) ==> !precedes(m[keys[j]], r)
    &&& exists|w: int| #![trigger keys[w]]
        0 <= w < n && m.contains_key(keys[w]) && m[keys[w]] == r
            && forall|j: int| #![trigger keys[j]] 0 <= j < w && m.contains_key(keys[j]) ==> precedes(r, m[keys[j]])
}

/// The outcome of looking up `keys`, in order, in the table `m`.
pub open spec fn best_of_keys(m: Map<RuleKey, Rule>, keys: Seq<RuleKey>, res: Option<Rule>) -> bool {
    match res {
        None => none_found(m, keys, keys.len() as int),
        Some(r) => wins_among(m, keys, keys.len() as int, r),
    }
}

/// The candidate keys for an inbound packet, in lookup order.
pub fn candidate_keys(ip: u32, port: u16, protocol: u8) -> (keys: Vec<RuleKey>)
    ensures
        keys@ == candidate_key_seq(ip, port, protocol),
{
    let d = FlowDirection::INGRESS;
    let keys = vec![
        RuleKey { ip, port, protocol, direction: d },
        RuleKey { ip, port: 0, protocol, direction: d },
        RuleKey { ip, port, protocol: 0, direction: d },
        RuleKey { ip, port: 0, protocol: 0, direction: d },
        RuleKey { ip: 0, port, protocol, direction: d },
        RuleKey { ip: 0, port: 0, protocol, direction: d },
        RuleKey { ip: 0, port, protocol: 0, direction: d },
        RuleKey { ip: 0, port: 0, protocol: 0, direction: d },
    ];
    assert(keys@ =~= candidate_key_seq(ip, port, protocol));
    keys
}

/// The rule that decides an inbound packet from `ip`:`port` over `protocol`:
/// among the rules stored under the candidate keys, the one with the lowest
/// priority value, then the lowest id; the first found wins a full tie.
pub fn lookup_rule(rules: &RuleMap, ip: u32, port: u16, protocol: u8) -> (best: Option<Rule>)
    ensures
        best_of_keys(rules@, candidate_key_seq(ip, port, protocol), best),
{
    let keys = candidate_keys(ip, port, protocol);
    let ghost m = rules@;
    let ghost ks = keys@;
    let mut best: Option<Rule> = None;
    let mut i: usize = 0;
    while i < keys.len()
        invariant
            ks == keys@,
            m == rules@,
            i <= keys.len(),
            best is None ==> none_found(m, ks, i as int),
            best matches Some(r) ==> wins_among(m, ks, i as int, r),
        decreases keys.len() - i,
    {
        match rules.get(&keys[i]) {
            Some(rule) => {
                let better = match best {
                    None => true,
                    Some(current) => rule_precedes(&rule, &current),
                };
                if better {
                    proof {
                        if let Some(cur) = best {
                            let w = choose|w: int| #![trigger ks[w]]
                                0 <= w < i && m.contains_key(ks[w]) && m[ks[w]] == cur
                                    && forall|j: int| #![trigger ks[j]] 0 <= j < w && m.contains_key(ks[j]) ==> precedes(cur, m[ks[j]]);
                        }
                        assert(m.contains_key(ks[i as int]) && m[ks[i as int]] == rule);
                    }
                    best = Some(rule);
                } else {
                    proof {
                        let cur = best->0;
                        let w = choose|w: int| #![trigger ks[w]]
                            0 <= w < i && m.contains_key(ks[w]) && m[ks[w]] == cur
                                && forall|j: int| #![trigger ks[j]] 0 <= j < w && m.contains_key(ks[j]) ==> precedes(cur, m[ks[j]]);
                        assert(0 <= w < i + 1 && m.contains_key(ks[w]) && m[ks[w]] == cur);
                    }
                }
            },
            None => {
                proof {
                    if let Some(cur) = best {
                        let w = choose|w: int| #![trigger ks[w]]
                            0 <= w < i && m.contains_key(ks[w]) && m[ks[w]] == cur
                                && forall|j: int| #![trigger ks[j]] 0 <= j < w && m.contains_key(ks[j]) ==> precedes(cur, m[ks[j]]);
                        assert(0 <= w < i + 1 && m.contains_key(ks[w]) && m[ks[w]] == cur);
                    }
                }
            },
        }
        i = i + 1;
    }
    best
}

} // verus!
