use vstd::prelude::*;

use crate::check::{
    apply_rule, lemma_resolve_upto_grows, lemma_with_triples, premise_outcome, premises_outcome,
    resolve, resolve_upto, with_triples, ProofFailure,
};
use crate::document::{derived_kb, verify_post};
use crate::formula::{formula_at, lemma_contained_satisfied, lemma_formula_in_graph, satisfied};
use crate::term::TripleView;

verus! {

/// Resolving a conclusion never removes a triple from the knowledge base.
pub proof fn lemma_resolve_grows(g: Seq<TripleView>, c: Seq<char>, kb: Seq<TripleView>)
    ensures
        forall|t: TripleView| kb.contains(t) ==> resolve(g, c, kb).contains(t),
{
    lemma_resolve_upto_grows(g, c, kb, g.len());
}

/// Resolving a list of conclusions never removes a triple from the knowledge base.
pub proof fn lemma_derived_kb_grows(g: Seq<TripleView>, cs: Seq<Seq<char>>, kb: Seq<TripleView>)
    ensures
        forall|t: TripleView| kb.contains(t) ==> derived_kb(g, cs, kb).contains(t),
    decreases cs.len(),
{
    if cs.len() > 0 {
        lemma_resolve_grows(g, cs[0], kb);
        lemma_derived_kb_grows(g, cs.drop_first(), resolve(g, cs[0], kb));
    }
}

proof fn lemma_resolve_upto_unchanged(g: Seq<TripleView>, c: Seq<char>, kb: Seq<TripleView>, n: nat)
    requires
        satisfied(formula_at(g, c), kb),
    ensures
        resolve_upto(g, c, kb, n) == kb,
    decreases n,
{
    if n > 0 {
        lemma_resolve_upto_unchanged(g, c, kb, (n - 1) as nat);
    }
}

/// Resolving a conclusion that the knowledge base already satisfies leaves
/// the knowledge base as it is.
pub proof fn lemma_resolve_satisfied_unchanged(g: Seq<TripleView>, c: Seq<char>, kb: Seq<TripleView>)
    requires
        satisfied(formula_at(g, c), kb),
    ensures
        resolve(g, c, kb) == kb,
{
    lemma_resolve_upto_unchanged(g, c, kb, g.len());
}

proof fn lemma_resolve_upto_changed(g: Seq<TripleView>, c: Seq<char>, kb: Seq<TripleView>, n: nat)
    ensures
        resolve_upto(g, c, kb, n) == kb || satisfied(formula_at(g, c), resolve_upto(g, c, kb, n)),
    decreases n,
{
    if n > 0 {
        let p = resolve_upto(g, c, kb, (n - 1) as nat);
        lemma_resolve_upto_changed(g, c, kb, (n - 1) as nat);
        let f = formula_at(g, c);
        if apply_rule(g, c, p, g[n - 1]) != p {
            lemma_with_triples(p, f);
            lemma_contained_satisfied(f, with_triples(p, f));
        }
    }
}

/// Resolving the same conclusion a second time changes nothing.
pub proof fn lemma_resolve_idempotent(g: Seq<TripleView>, c: Seq<char>, kb: Seq<TripleView>)
    ensures
        resolve(g, c, resolve(g, c, kb)) == resolve(g, c, kb),
{
    lemma_resolve_upto_changed(g, c, kb, g.len());
    if resolve(g, c, kb) != kb {
        lemma_resolve_satisfied_unchanged(g, c, resolve(g, c, kb));
    }
}

proof fn lemma_premises_ok_iff_each(g: Seq<TripleView>, s: Seq<Seq<char>>, kb: Seq<TripleView>)
    ensures
        (premises_outcome(g, s, kb) is Ok) <==> forall|i: int|
            0 <= i < s.len() ==> #[trigger] premise_outcome(g, s[i], kb) is Ok,
    decreases s.len(),
{
    if s.len() > 0 {
        lemma_premises_ok_iff_each(g, s.drop_first(), kb);
        assert forall|i: int| 1 <= i < s.len() implies s.drop_first()[i - 1] == s[i] by {}
        if premises_outcome(g, s, kb) is Ok {
            assert forall|i: int| 0 <= i < s.len() implies #[trigger] premise_outcome(
                g,
                s[i],
                kb,
            ) is Ok by {
                if i > 0 {
                    assert(premise_outcome(g, s.drop_first()[i - 1], kb) is Ok);
                }
            }
        }
        if forall|i: int| 0 <= i < s.len() ==> #[trigger] premise_outcome(g, s[i], kb) is Ok {
            assert(premise_outcome(g, s[0], kb) is Ok);
            assert forall|i: int| 0 <= i < s.drop_first().len() implies #[trigger] premise_outcome(
                g,
                s.drop_first()[i],
                kb,
            ) is Ok by {
                assert(s.drop_first()[i] == s[i + 1]);
            }
        }
    }
}

/// Whether all premises hold does not depend on the order in which they are
/// checked: two lists that hold the same premises pass or fail together.
pub proof fn lemma_premise_order_irrelevant(
    g: Seq<TripleView>,
    a: Seq<Seq<char>>,
    b: Seq<Seq<char>>,
    kb: Seq<TripleView>,
)
    requires
        a.to_set() == b.to_set(),
    ensures
        (premises_outcome(g, a, kb) is Ok) == (premises_outcome(g, b, kb) is Ok),
{
    lemma_premises_ok_iff_each(g, a, kb);
    lemma_premises_ok_iff_each(g, b, kb);
    assert forall|i: int| 0 <= i < b.len() implies exists|j: int|
        0 <= j < a.len() && a[j] == #[trigger] b[i] by {
        assert(b.to_set().contains(b[i]));
        assert(a.to_set().contains(b[i]));
    }
    assert forall|i: int| 0 <= i < a.len() implies exists|j: int|
        0 <= j < b.len() && b[j] == #[trigger] a[i] by {
        assert(a.to_set().contains(a[i]));
        assert(b.to_set().contains(a[i]));
    }
    if premises_outcome(g, a, kb) is Ok {
        assert forall|i: int| 0 <= i < b.len() implies #[trigger] premise_outcome(g, b[i], kb) is Ok by {
            let j = choose|j: int| 0 <= j < a.len() && a[j] == b[i];
            assert(premise_outcome(g, a[j], kb) is Ok);
        }
    }
    if premises_outcome(g, b, kb) is Ok {
        assert forall|i: int| 0 <= i < a.len() implies #[trigger] premise_outcome(g, a[i], kb) is Ok by {
            let j = choose|j: int| 0 <= j < b.len() && b[j] == a[i];
            assert(premise_outcome(g, b[j], kb) is Ok);
        }
    }
}

/// Every premise of a graph holds against that graph itself: a formula's
/// triples are triples of the graph, and each one matches itself.
pub proof fn lemma_premises_hold_in_own_graph(g: Seq<TripleView>, s: Seq<Seq<char>>)
    ensures
        premises_outcome(g, s, g) is Ok,
{
    lemma_premises_ok_iff_each(g, s, g);
    assert forall|i: int| 0 <= i < s.len() implies #[trigger] premise_outcome(g, s[i], g) is Ok by {
        lemma_formula_in_graph(g, s[i]);
        lemma_contained_satisfied(formula_at(g, s[i]), g);
    }
}

/// Verification is deterministic: two verdicts that `verify_proof` may return
/// on the same graph and document are the same.
pub proof fn lemma_verify_deterministic(
    g: Seq<TripleView>,
    doc: Seq<char>,
    v1: Result<(), ProofFailure>,
    v2: Result<(), ProofFailure>,
)
    requires
        verify_post(g, doc, v1),
        verify_post(g, doc, v2),
    ensures
        v1 == v2,
{
}

} // verus!
