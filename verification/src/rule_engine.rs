use vstd::prelude::*;
use std::collections::HashMap;
use vstd::std_specs::iter::IteratorSpec;
use crate::types::{Rule, RuleAction, RuleKey, ANY_PROTOCOL, PROTO_TCP, PROTO_UDP};
use crate::ordering::{sort_by_precedence, strictly_sorted_by_precedence, precedes};

verus! {

/// Why a rule was refused.
#[derive(Clone, Copy, Debug, PartialEq, Eq, Structural)]
pub enum RuleError {
    /// The rule id is zero.
    ZeroId,
    /// The protocol is neither any (0), TCP (6) nor UDP (17).
    UnsupportedProtocol(u8),
    /// The priority is `u16::MAX`, which is reserved.
    ReservedPriority(u16),
    /// A rule with this id is already present.
    DuplicateId(u32),
    /// A rule with this match key is already present.
    DuplicateKey(RuleKey),
}

/// The protocols a rule may name: any, TCP or UDP.
pub open spec fn supported_protocol(protocol: u8) -> bool {
    protocol == ANY_PROTOCOL || protocol == PROTO_TCP || protocol == PROTO_UDP
}

/// The outcome of validating `rule`: the first check that fails, in the
/// order id, protocol, priority.
pub open spec fn validation_result(rule: Rule) -> Result<(), RuleError> {
    if rule.id == 0 {
        Err(RuleError::ZeroId)
    } else if !supported_protocol(rule.key.protocol) {
        Err(RuleError::UnsupportedProtocol(rule.key.protocol))
    } else if rule.priority == u16::MAX {
        Err(RuleError::ReservedPriority(rule.priority))
    } else {
        Ok(())
    }
}

/// A rule that the engine accepts on its own merits.
pub open spec fn rule_is_valid(rule: Rule) -> bool {
    validation_result(rule) is Ok
}

/// A rule table as the engine keeps it: every rule is valid and stored under
/// its own id, and no two rules share a match key.
pub open spec fn table_is_well_formed(m: Map<u32, Rule>) -> bool {
    &&& forall|id: u32| #[trigger] m.contains_key(id) ==> m[id].id == id && rule_is_valid(m[id])
    &&& forall|i: u32, j: u32|
        m.contains_key(i) && m.contains_key(j) && i != j ==> #[trigger] m[i].key != #[trigger] m[j].key
}

/// Some rule of the table has this match key.
pub open spec fn has_rule_with_key(m: Map<u32, Rule>, key: RuleKey) -> bool {
    exists|id: u32| #[trigger] m.contains_key(id) && m[id].key == key
}

/// The outcome of inserting `rule` into the table `m`: a validation error
/// first, then a duplicate id, then a duplicate match key.
pub open spec fn insert_result(m: Map<u32, Rule>, rule: Rule) -> Result<(), RuleError> {
    match validation_result(rule) {
        Err(e) => Err(e),
        Ok(()) => if m.contains_key(rule.id) {
            Err(RuleError::DuplicateId(rule.id))
        } else if has_rule_with_key(m, rule.key) {
            Err(RuleError::DuplicateKey(rule.key))
        } else {
            Ok(())
        },
    }
}

/// `s` lists every rule of the table once, in strict precedence order.
pub open spec fn is_ordered_listing(m: Map<u32, Rule>, s: Seq<Rule>) -> bool {
    &&& s.len() == m.dom().len()
    &&& forall|i: int| 0 <= i < s.len() ==> m.contains_key(#[trigger] s[i].id) && m[s[i].id] == s[i]
    &&& forall|id: u32| #[trigger] m.contains_key(id) ==> s.contains(m[id])
    &&& strictly_sorted_by_precedence(s)
}

/// The name under which an action is shown.
pub open spec fn action_label(action: RuleAction) -> Seq<char> {
    match action {
        RuleAction::ALLOW => "allow"@,
        RuleAction::BLOCK => "block"@,
    }
}

/// Userspace policy validator and deterministic ordering layer.
#[derive(Debug)]
pub struct RuleEngine {
    rules: HashMap<u32, Rule>,
}

impl View for RuleEngine {
    type V = Map<u32, Rule>;

    /// The rules of the engine, by id.
    closed spec fn view(&self) -> Map<u32, Rule> {
        self.rules@
    }
}

impl RuleEngine {
    #[verifier::type_invariant]
    spec fn well_formed(self) -> bool {
        table_is_well_formed(self.rules@)
    }

    /// An engine that holds no rule.
    pub fn new() -> (engine: Self)
        ensures
            engine@ == Map::<u32, Rule>::empty(),
            table_is_well_formed(engine@),
    {
        RuleEngine { rules: HashMap::new() }
    }

    /// Checks a rule on its own: non-zero id, supported protocol, priority
    /// below `u16::MAX`.
    pub fn validate(rule: &Rule) -> (res: Result<(), RuleError>)
        ensures
            res == validation_result(*rule),
    {
        if rule.id == 0 {
            return Err(RuleError::ZeroId);
        }
        if rule.key.protocol > 0 && !(rule.key.protocol == 6 || rule.key.protocol == 17) {
            return Err(RuleError::UnsupportedProtocol(rule.key.protocol));
        }
        if rule.priority == u16::MAX {
            return Err(RuleError::ReservedPriority(rule.priority));
        }
        Ok(())
    }

    /// Whether some rule of the engine has this match key.
    fn contains_rule_key(&self, key: &RuleKey) -> (found: bool)
        ensures
            found == has_rule_with_key(self@, *key),
    {
        let ghost seq = vstd::std_specs::hash::spec_hash_map_iter(&self.rules).remaining();
        for entry in it: self.rules.iter()
            invariant
                it.seq() == seq,
                forall|j: int| 0 <= j < it.index() ==> (#[trigger] seq[j]).1.key != *key,
        {
            if entry.1.key == *key {
                proof {
                    let k = *entry.0;
                    assert(self.rules@.contains_key(k) && self.rules@[k].key == *key);
                }
                return true;
            }
        }
        proof {
            assert forall|id: u32| #[trigger] self.rules@.contains_key(id) implies self.rules@[id].key != *key by {
                assert(seq.contains((&id, &self.rules@[id])));
                let j = choose|j: int| 0 <= j < seq.len() && seq[j] == (&id, &self.rules@[id]);
                assert(seq[j].1.key != *key);
            }
        }
        false
    }

    /// Adds a rule after validating it and checking that neither its id nor
    /// its match key is taken. On error the engine is unchanged.
    pub fn insert(&mut self, rule: Rule) -> (res: Result<(), RuleError>)
        ensures
            res == insert_result(old(self)@, rule),
            res is Ok ==> final(self)@ == old(self)@.insert(rule.id, rule),
            res is Err ==> final(self)@ == old(self)@,
            table_is_well_formed(final(self)@),
    {
        proof {
            use_type_invariant(&*self);
        }
        match Self::validate(&rule) {
            Err(e) => return Err(e),
            Ok(()) => {},
        }
        if self.rules.contains_key(&rule.id) {
            return Err(RuleError::DuplicateId(rule.id));
        }
        if self.contains_rule_key(&rule.key) {
            return Err(RuleError::DuplicateKey(rule.key));
        }
        let mut rules = HashMap::new();
        std::mem::swap(&mut rules, &mut self.rules);
        rules.insert(rule.id, rule);
        self.rules = rules;
        Ok(())
    }

    /// Removes the rule with this id, returning it if it was present.
    pub fn remove(&mut self, id: u32) -> (removed: Option<Rule>)
        ensures
            removed == (if old(self)@.contains_key(id) { Some(old(self)@[id]) } else { None }),
            final(self)@ == old(self)@.remove(id),
            table_is_well_formed(final(self)@),
    {
        proof {
            use_type_invariant(&*self);
        }
        let mut rules = HashMap::new();
        std::mem::swap(&mut rules, &mut self.rules);
        let removed = rules.remove(&id);
        self.rules = rules;
        removed
    }

    /// Lists the rules in precedence order: by priority, then by id.
    pub fn ordered(&self) -> (listing: Vec<Rule>)
        ensures
            is_ordered_listing(self@, listing@),
    {
        proof {
            use_type_invariant(self);
        }
        let mut all: Vec<Rule> = Vec::new();
        let ghost seq = vstd::std_specs::hash::spec_hash_map_iter(&self.rules).remaining();
        for entry in it: self.rules.iter()
            invariant
                it.seq() == seq,
                all@.len() == it.index(),
                forall|j: int| 0 <= j < it.index() ==> #[trigger] all@[j] == *seq[j].1,
        {
            all.push(*entry.1);
        }
        let ghost m = self.rules@;
        proof {
            assert forall|j: int| 0 <= j < all@.len() implies m.contains_key(#[trigger] all@[j].id) && m[all@[j].id] == all@[j] by {
                assert(m.contains_key(*seq[j].0));
            }
            assert forall|a: int, b: int| 0 <= a < all@.len() && 0 <= b < all@.len() && a != b implies all@[a] != all@[b] by {
                assert(m.contains_key(*seq[a].0));
                assert(m.contains_key(*seq[b].0));
                assert(seq[a] != seq[b]);
            }
            assert(all@.no_duplicates());
        }
        let sorted = sort_by_precedence(all);
        proof {
            broadcast use vstd::seq_lib::group_to_multiset_ensures;
            all@.lemma_multiset_has_no_duplicates();
            sorted@.lemma_multiset_has_no_duplicates_conv();
            assert forall|i: int| 0 <= i < sorted@.len() implies m.contains_key(#[trigger] sorted@[i].id) && m[sorted@[i].id] == sorted@[i] by {
                assert(sorted@.to_multiset().count(sorted@[i]) > 0);
                assert(all@.contains(sorted@[i]));
            }
            assert forall|i: int, j: int| 0 <= i < j < sorted@.len() implies precedes(#[trigger] sorted@[i], #[trigger] sorted@[j]) by {
                assert(!precedes(sorted@[j], sorted@[i]));
                assert(m.contains_key(sorted@[i].id));
                assert(m.contains_key(sorted@[j].id));
            }
            vstd::seq_lib::to_multiset_len(all@);
            vstd::seq_lib::to_multiset_len(sorted@);
            assert(sorted@.len() == all@.len());
            assert forall|id: u32| #[trigger] m.contains_key(id) implies sorted@.contains(m[id]) by {
                assert(seq.contains((&id, &m[id])));
                let j = choose|j: int| 0 <= j < seq.len() && seq[j] == (&id, &m[id]);
                assert(all@[j] == m[id]);
                assert(all@.contains(m[id]));
                assert(all@.to_multiset().count(m[id]) > 0);
            }
        }
        sorted
    }

    /// The name under which an action is shown.
    pub fn action_name(action: RuleAction) -> (name: &'static str)
        ensures
            name@ == action_label(action),
    {
        match action {
            RuleAction::ALLOW => "allow",
            RuleAction::BLOCK => "block",
        }
    }
}

impl Default for RuleEngine {
    /// An engine that holds no rule.
    fn default() -> (engine: Self)
        ensures
            engine@ == Map::<u32, Rule>::empty(),
    {
        RuleEngine::new()
    }
}

} // verus!
