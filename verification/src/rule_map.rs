use vstd::prelude::*;
use std::collections::HashMap;
use crate::types::{FlowDirection, Rule, RuleKey};

verus! {

/// The number that stands for a flow direction in a packed key.
pub open spec fn direction_code(d: FlowDirection) -> u64 {
    match d {
        FlowDirection::INGRESS => 0,
        FlowDirection::EGRESS => 1,
    }
}

/// A match key packed into one integer: address, port, protocol and
/// direction in disjoint bit ranges.
pub open spec fn key_code(k: RuleKey) -> u64 {
    ((k.ip as u64) << 32u64) | ((k.port as u64) << 16u64) | ((k.protocol as u64) << 8u64)
        | direction_code(k.direction)
}

/// Distinct match keys pack to distinct integers.
pub proof fn lemma_key_code_injective(a: RuleKey, b: RuleKey)
    requires
        key_code(a) == key_code(b),
    ensures
        a == b,
{
    let (ia, pa, qa, da) = (a.ip, a.port, a.protocol, direction_code(a.direction));
    let (ib, pb, qb, db) = (b.ip, b.port, b.protocol, direction_code(b.direction));
    assert(ia == ib && pa == pb && qa == qb && da == db) by (bit_vector)
        requires
            da <= 1u64,
            db <= 1u64,
            ((ia as u64) << 32u64) | ((pa as u64) << 16u64) | ((qa as u64) << 8u64) | da
                == ((ib as u64) << 32u64) | ((pb as u64) << 16u64) | ((qb as u64) << 8u64) | db,
    ;
}

fn pack_key(k: &RuleKey) -> (code: u64)
    ensures
        code == key_code(*k),
{
    let d: u64 = match k.direction {
        FlowDirection::INGRESS => 0,
        FlowDirection::EGRESS => 1,
    };
    ((k.ip as u64) << 32u64) | ((k.port as u64) << 16u64) | ((k.protocol as u64) << 8u64) | d
}

/// Every rule of the table is stored under its own match key.
pub open spec fn keyed_by_own_key(m: Map<RuleKey, Rule>) -> bool {
    forall|k: RuleKey| #[trigger] m.contains_key(k) ==> m[k].key == k
}

/// The rule table that the kernel program consults: one rule per match key,
/// each stored under its own key.
pub struct RuleMap {
    rules: HashMap<u64, Rule>,
}

impl View for RuleMap {
    type V = Map<RuleKey, Rule>;

    /// The rules of the table, by match key.
    closed spec fn view(&self) -> Map<RuleKey, Rule> {
        Map::new(
            |k: RuleKey| self.rules@.contains_key(key_code(k)),
            |k: RuleKey| self.rules@[key_code(k)],
        )
    }
}

impl RuleMap {
    #[verifier::type_invariant]
    spec fn stored_under_own_key(self) -> bool {
        forall|c: u64| #[trigger] self.rules@.contains_key(c) ==> key_code(self.rules@[c].key) == c
    }

    /// An empty table.
    pub fn new() -> (table: Self)
        ensures
            table@ == Map::<RuleKey, Rule>::empty(),
            keyed_by_own_key(table@),
    {
        let table = RuleMap { rules: HashMap::new() };
        assert(table@ =~= Map::<RuleKey, Rule>::empty());
        table
    }

    /// Stores `rule` under its match key, replacing any rule with that key.
    pub fn insert(&mut self, rule: Rule) -> (replaced: Option<Rule>)
        ensures
            final(self)@ == old(self)@.insert(rule.key, rule),
            replaced == (if old(self)@.contains_key(rule.key) {
                Some(old(self)@[rule.key])
            } else {
                None
            }),
            keyed_by_own_key(final(self)@),
    {
        proof {
            use_type_invariant(&*self);
        }
        let code = pack_key(&rule.key);
        let mut rules = HashMap::new();
        std::mem::swap(&mut rules, &mut self.rules);
        let replaced = rules.insert(code, rule);
        self.rules = rules;
        proof {
            assert forall|k: RuleKey| #[trigger] self@.contains_key(k) == old(self)@.insert(rule.key, rule).contains_key(k) by {
                if key_code(k) == key_code(rule.key) {
                    lemma_key_code_injective(k, rule.key);
                }
            }
            assert forall|k: RuleKey| self@.contains_key(k) implies #[trigger] self@[k] == old(self)@.insert(rule.key, rule)[k] by {
                if key_code(k) == key_code(rule.key) {
                    lemma_key_code_injective(k, rule.key);
                }
            }
            assert(self@ =~= old(self)@.insert(rule.key, rule));
            use_type_invariant(&*self);
            assert forall|k: RuleKey| #[trigger] self@.contains_key(k) implies self@[k].key == k by {
                lemma_key_code_injective(self@[k].key, k);
            }
        }
        replaced
    }

    /// The rule stored under `key`, if any.
    pub fn get(&self, key: &RuleKey) -> (found: Option<Rule>)
        ensures
            found == (if self@.contains_key(*key) { Some(self@[*key]) } else { None }),
            keyed_by_own_key(self@),
    {
        proof {
            use_type_invariant(self);
            assert forall|k: RuleKey| #[trigger] self@.contains_key(k) implies self@[k].key == k by {
                lemma_key_code_injective(self@[k].key, k);
            }
        }
        match self.rules.get(&pack_key(key)) {
            Some(rule) => Some(*rule),
            None => None,
        }
    }
}

} // verus!
