use vstd::prelude::*;

use crate::graph::Graph;
use crate::term::{views, TermView, Triple, TripleView};
use crate::unify::{triples_unify, unify_triples};

verus! {

/// A quoted formula: the statements grouped under one anchor node.
#[derive(Clone, Debug)]
pub struct N3Formula {
    pub triples: Vec<Triple>,
}

impl View for N3Formula {
    type V = Seq<TripleView>;

    open spec fn view(&self) -> Seq<TripleView> {
        views(self.triples@)
    }
}

/// The triples of `g` whose subject is the IRI `anchor`, in the order of `g`.
/// Objects that anchor formulas of their own are not followed.
pub open spec fn formula_at(g: Seq<TripleView>, anchor: Seq<char>) -> Seq<TripleView> {
    g.filter(has_subject(anchor))
}

/// Whether a triple's subject is the IRI `anchor`.
pub open spec fn has_subject(anchor: Seq<char>) -> spec_fn(TripleView) -> bool {
    |t: TripleView| t.subject == TermView::Named(anchor)
}

/// Some triple of `kb` matches `t`.
pub open spec fn matched_in(t: TripleView, kb: Seq<TripleView>) -> bool {
    exists|j: int| 0 <= j < kb.len() && triples_unify(t, #[trigger] kb[j])
}

/// Every triple of `f` is matched by some triple of `kb`, each one on its own:
/// blank nodes need not match the same term in different triples. A formula
/// without triples is satisfied.
pub open spec fn satisfied(f: Seq<TripleView>, kb: Seq<TripleView>) -> bool {
    forall|i: int| 0 <= i < f.len() ==> #[trigger] matched_in(f[i], kb)
}

/// Decides whether some triple of `kb` matches `t`.
fn matched_in_graph(t: &Triple, kb: &Graph) -> (r: bool)
    ensures
        r == matched_in(t@, kb@),
{
    let mut j: usize = 0;
    while j < kb.len()
        invariant
            j <= kb@.len(),
            forall|k: int| 0 <= k < j ==> !triples_unify(t@, #[trigger] kb@[k]),
        decreases kb@.len() - j,
    {
        if unify_triples(t, kb.triple(j)) {
            return true;
        }
        j += 1;
    }
    false
}

impl N3Formula {
    /// Decides whether every triple of the formula matches some triple of `kb`.
    pub fn is_satisfied_by(&self, kb: &Graph) -> (r: bool)
        ensures
            r == satisfied(self@, kb@),
    {
        let mut i: usize = 0;
        while i < self.triples.len()
            invariant
                i <= self.triples@.len(),
                forall|k: int| 0 <= k < i ==> #[trigger] matched_in(self@[k], kb@),
            decreases self.triples@.len() - i,
        {
            if !matched_in_graph(&self.triples[i], kb) {
                assert(self@[i as int] == self.triples@[i as int]@);
                return false;
            }
            i += 1;
        }
        true
    }
}

/// The formula anchored at the IRI `formula_node`: every triple of `graph`
/// whose subject is that IRI.
pub fn extract_formula(graph: &Graph, formula_node: &str) -> (r: N3Formula)
    ensures
        r@ == formula_at(graph@, formula_node@),
{
    let mut triples: Vec<Triple> = Vec::new();
    let mut i: usize = 0;
    while i < graph.len()
        invariant
            i <= graph@.len(),
            views(triples@) == graph@.subrange(0, i as int).filter(has_subject(formula_node@)),
        decreases graph@.len() - i,
    {
        let t = graph.triple(i);
        let ghost before = triples@;
        let ghost s = graph@.subrange(0, i + 1);
        if t.subject.is_named(formula_node) {
            let c = t.duplicate();
            triples.push(c);
            assert(triples@ == before.push(c));
            assert(views(triples@) =~= views(before).push(
                c@,
            ));
        }
        proof {
            assert(s.drop_last() =~= graph@.subrange(0, i as int));
            assert(s.last() == t@);
            reveal_with_fuel(Seq::filter, 1);
            assert(s.filter(has_subject(formula_node@)) == if has_subject(formula_node@)(t@) {
                s.drop_last().filter(has_subject(formula_node@)).push(t@)
            } else {
                s.drop_last().filter(has_subject(formula_node@))
            });
        }
        i += 1;
    }
    assert(graph@.subrange(0, graph@.len() as int) =~= graph@);
    N3Formula { triples }
}

/// The triples of a formula are triples of the graph it was taken from.
pub proof fn lemma_formula_in_graph(g: Seq<TripleView>, anchor: Seq<char>)
    ensures
        forall|i: int| 0 <= i < formula_at(g, anchor).len() ==> g.contains(
            #[trigger] formula_at(g, anchor)[i],
        ),
{
    let f = formula_at(g, anchor);
    assert forall|i: int| 0 <= i < f.len() implies g.contains(#[trigger] f[i]) by {
        assert(f.contains(f[i]));
        g.lemma_filter_contains_rev(has_subject(anchor), f[i]);
    }
}

/// A formula without triples is satisfied by every knowledge base.
pub proof fn lemma_empty_formula_satisfied(f: Seq<TripleView>, kb: Seq<TripleView>)
    requires
        f.len() == 0,
    ensures
        satisfied(f, kb),
{
}

/// A knowledge base that holds every triple of a formula satisfies it.
pub proof fn lemma_contained_satisfied(f: Seq<TripleView>, kb: Seq<TripleView>)
    requires
        forall|i: int| 0 <= i < f.len() ==> kb.contains(#[trigger] f[i]),
    ensures
        satisfied(f, kb),
{
    assert forall|i: int| 0 <= i < f.len() implies #[trigger] matched_in(f[i], kb) by {
        assert(kb.contains(f[i]));
        let k = choose|k: int| 0 <= k < kb.len() && kb[k] == f[i];
        assert(triples_unify(f[i], kb[k]));
    }
}

} // verus!
