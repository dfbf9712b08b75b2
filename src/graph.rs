use vstd::prelude::*;

use crate::term::{views, Triple, TripleView};

verus! {

/// The sequence `kb` with `t` added at the end, unless it already holds it.
pub open spec fn with_triple(kb: Seq<TripleView>, t: TripleView) -> Seq<TripleView> {
    if kb.contains(t) {
        kb
    } else {
        kb.push(t)
    }
}

/// `with_triple(kb, t)` holds `t` and every triple of `kb`.
pub proof fn lemma_with_triple(kb: Seq<TripleView>, t: TripleView)
    ensures
        with_triple(kb, t).contains(t),
        forall|u: TripleView| kb.contains(u) ==> with_triple(kb, t).contains(u),
        kb.no_duplicates() ==> with_triple(kb, t).no_duplicates(),
{
    if !kb.contains(t) {
        assert(kb.push(t)[kb.len() as int] == t);
        assert forall|u: TripleView| kb.contains(u) implies kb.push(t).contains(u) by {
            let k = choose|k: int| 0 <= k < kb.len() && kb[k] == u;
            assert(kb.push(t)[k] == u);
        }
    }
}

/// A set of triples, kept in the order in which they were first inserted.
/// No triple occurs twice.
pub struct Graph {
    triples: Vec<Triple>,
}

impl View for Graph {
    type V = Seq<TripleView>;

    closed spec fn view(&self) -> Seq<TripleView> {
        views(self.triples@)
    }
}

impl Graph {
    /// No triple occurs twice.
    pub open spec fn wf(&self) -> bool {
        self@.no_duplicates()
    }

    /// An empty graph.
    pub fn new() -> (r: Graph)
        ensures
            r@ == Seq::<TripleView>::empty(),
            r.wf(),
    {
        let r = Graph { triples: Vec::new() };
        assert(r@ =~= Seq::<TripleView>::empty());
        r
    }

    /// The number of triples.
    pub fn len(&self) -> (r: usize)
        ensures
            r == self@.len(),
    {
        self.triples.len()
    }

    /// The triple at position `i` of the insertion order.
    pub fn triple(&self, i: usize) -> (r: &Triple)
        requires
            i < self@.len(),
        ensures
            r@ == self@[i as int],
    {
        &self.triples[i]
    }

    /// Whether the graph holds `t`.
    pub fn contains(&self, t: &Triple) -> (r: bool)
        ensures
            r == self@.contains(t@),
    {
        let mut i: usize = 0;
        while i < self.triples.len()
            invariant
                i <= self.triples@.len(),
                forall|j: int| 0 <= j < i ==> self@[j] != t@,
            decreases self.triples@.len() - i,
        {
            if self.triples[i].same_as(t) {
                assert(self@[i as int] == t@);
                return true;
            }
            i += 1;
        }
        false
    }

    /// Adds `t`; returns whether it was new.
    pub fn insert(&mut self, t: Triple) -> (r: bool)
        ensures
            old(self).wf() ==> final(self).wf(),
            final(self)@ == with_triple(old(self)@, t@),
            r == !old(self)@.contains(t@),
    {
        if self.contains(&t) {
            false
        } else {
            let ghost before = self@;
            self.triples.push(t);
            assert(self@ =~= before.push(t@));
            true
        }
    }

    /// A copy of the graph.
    pub fn duplicate(&self) -> (r: Graph)
        ensures
            r@ == self@,
            self.wf() ==> r.wf(),
    {
        let mut triples: Vec<Triple> = Vec::new();
        let mut i: usize = 0;
        while i < self.triples.len()
            invariant
                i <= self.triples@.len(),
                triples@.len() == i,
                forall|j: int| 0 <= j < i ==> #[trigger] triples@[j]@ == self@[j],
            decreases self.triples@.len() - i,
        {
            let c = self.triples[i].duplicate();
            let ghost before = triples@;
            triples.push(c);
            assert(triples@ == before.push(c));
            i += 1;
        }
        let r = Graph { triples };
        assert(r@ =~= self@);
        r
    }
}

} // verus!
