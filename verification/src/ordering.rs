use vstd::prelude::*;
use crate::types::Rule;

verus! {

/// `a` is listed, and wins, before `b`: a lower priority value, with ties
/// broken by the lower rule id.
pub open spec fn precedes(a: Rule, b: Rule) -> bool {
    a.priority < b.priority || (a.priority == b.priority && a.id < b.id)
}

/// No rule of `s` precedes a rule listed before it.
pub open spec fn sorted_by_precedence(s: Seq<Rule>) -> bool {
    forall|i: int, j: int| 0 <= i < j < s.len() ==> !precedes(#[trigger] s[j], #[trigger] s[i])
}

/// Each rule of `s` strictly precedes every rule listed after it.
pub open spec fn strictly_sorted_by_precedence(s: Seq<Rule>) -> bool {
    forall|i: int, j: int| 0 <= i < j < s.len() ==> precedes(#[trigger] s[i], #[trigger] s[j])
}

/// The predicate "has this priority and this id".
pub open spec fn has_rank(priority: u16, id: u32) -> spec_fn(Rule) -> bool {
    |r: Rule| r.priority == priority && r.id == id
}

/// The rules of `s` with the given priority and id, in their order in `s`.
pub open spec fn rank_class(s: Seq<Rule>, priority: u16, id: u32) -> Seq<Rule> {
    s.filter(has_rank(priority, id))
}

/// `out` is `input` sorted by precedence, stably: a permutation of `input`,
/// sorted, in which rules of equal priority and id keep their order.
pub open spec fn is_stable_precedence_sort(input: Seq<Rule>, out: Seq<Rule>) -> bool {
    &&& out.to_multiset() == input.to_multiset()
    &&& sorted_by_precedence(out)
    &&& forall|p: u16, id: u32| #[trigger] rank_class(out, p, id) == rank_class(input, p, id)
}

/// Executable form of `precedes`.
pub fn rule_precedes(a: &Rule, b: &Rule) -> (r: bool)
    ensures
        r == precedes(*a, *b),
{
    a.priority < b.priority || (a.priority == b.priority && a.id < b.id)
}

proof fn lemma_singleton_filter(x: Rule, pred: spec_fn(Rule) -> bool)
    ensures
        seq![x].filter(pred) == (if pred(x) { seq![x] } else { Seq::<Rule>::empty() }),
{
    reveal(Seq::filter);
    assert(seq![x].drop_last() =~= Seq::<Rule>::empty());
    assert(Seq::<Rule>::empty().filter(pred) =~= Seq::<Rule>::empty());
    assert(Seq::<Rule>::empty().push(x) =~= seq![x]);
}

/// Inserting `x` at a position where everything before it is not after it
/// and everything after it is strictly after it appends `x` to its rank class
/// and leaves every other class unchanged.
proof fn lemma_insert_rank_class(s: Seq<Rule>, pos: int, x: Rule, p: u16, id: u32)
    requires
        0 <= pos <= s.len(),
        forall|j: int| 0 <= j < pos ==> !precedes(x, #[trigger] s[j]),
        forall|j: int| pos <= j < s.len() ==> precedes(x, #[trigger] s[j]),
    ensures
        rank_class(s.insert(pos, x), p, id) == (if has_rank(p, id)(x) {
            rank_class(s, p, id).push(x)
        } else {
            rank_class(s, p, id)
        }),
{
    let pred = has_rank(p, id);
    let a = s.subrange(0, pos);
    let b = s.subrange(pos, s.len() as int);
    assert(s =~= a + b);
    assert(s.insert(pos, x) =~= (a + seq![x]) + b);
    Seq::filter_distributes_over_add(a, b, pred);
    Seq::filter_distributes_over_add(a + seq![x], b, pred);
    Seq::filter_distributes_over_add(a, seq![x], pred);
    lemma_singleton_filter(x, pred);
    if pred(x) {
        assert forall|k: int| 0 <= k < b.len() implies !pred(#[trigger] b[k]) by {
            assert(precedes(x, s[pos + k]));
        }
        assert(b.all(|r: Rule| !pred(r)));
        b.lemma_all_neg_filter_empty(pred);
        assert(b.filter(pred) =~= Seq::<Rule>::empty());
        assert(rank_class(s.insert(pos, x), p, id) =~= rank_class(s, p, id).push(x));
    } else {
        assert(rank_class(s.insert(pos, x), p, id) =~= rank_class(s, p, id));
    }
}

/// Sorts rules by precedence (priority, then id), keeping the input order of
/// rules that share both.
pub fn sort_by_precedence(rules: Vec<Rule>) -> (sorted: Vec<Rule>)
    ensures
        is_stable_precedence_sort(rules@, sorted@),
{
    broadcast use vstd::seq_lib::group_to_multiset_ensures;

    let mut out: Vec<Rule> = Vec::new();
    let n = rules.len();
    proof {
        assert(rules@.take(0) =~= Seq::<Rule>::empty());
        assert forall|p: u16, id: u32| #[trigger] rank_class(out@, p, id) == rank_class(rules@.take(0), p, id) by {
            reveal(Seq::filter);
        }
    }
    for i in 0..n
        invariant
            n == rules.len(),
            is_stable_precedence_sort(rules@.take(i as int), out@),
    {
        let x = rules[i];
        let mut pos: usize = out.len();
        while pos > 0 && rule_precedes(&x, &out[pos - 1])
            invariant
                pos <= out.len(),
                forall|j: int| pos <= j < out.len() ==> precedes(x, #[trigger] out@[j]),
            decreases pos,
        {
            pos = pos - 1;
        }
        let ghost old_out = out@;
        proof {
            assert forall|j: int| 0 <= j < pos implies !precedes(x, #[trigger] old_out[j]) by {
                if j < pos - 1 {
                    assert(!precedes(old_out[pos - 1], old_out[j]));
                }
            }
        }
        out.insert(pos, x);
        proof {
            assert(rules@.take(i + 1) =~= rules@.take(i as int).push(x));
            assert(out@ == old_out.insert(pos as int, x));
            vstd::seq_lib::to_multiset_insert(old_out, pos as int, x);
            vstd::seq_lib::to_multiset_build(rules@.take(i as int), x);
            assert(out@.to_multiset() == rules@.take(i + 1).to_multiset());
            assert forall|p: u16, id: u32| #[trigger] rank_class(out@, p, id) == rank_class(rules@.take(i + 1), p, id) by {
                lemma_insert_rank_class(old_out, pos as int, x, p, id);
                rules@.take(i as int).lemma_filter_push(x, has_rank(p, id));
            }
            assert forall|a: int, b: int| 0 <= a < b < out@.len() implies !precedes(#[trigger] out@[b], #[trigger] out@[a]) by {
                if a < pos && b == pos {
                } else if a == pos {
                    assert(precedes(x, old_out[b - 1]));
                } else if a < pos && b > pos {
                    assert(!precedes(old_out[b - 1], old_out[a]));
                } else if b < pos {
                    assert(!precedes(old_out[b], old_out[a]));
                } else {
                    assert(!precedes(old_out[b - 1], old_out[a - 1]));
                }
            }
        }
    }
    proof {
        assert(rules@.take(n as int) =~= rules@);
    }
    out
}

} // verus!
