use vstd::prelude::*;
use vstd::string::*;

use crate::formula::{extract_formula, formula_at, lemma_contained_satisfied, satisfied};
use crate::graph::{lemma_with_triple, with_triple, Graph};
use crate::term::{Term, TermView, TripleView};

verus! {

pub const RDF_TYPE: &'static str = "http://www.w3.org/1999/02/22-rdf-syntax-ns#type";

pub const LOG_PROOF: &'static str = "http://www.w3.org/2000/10/swap/log#Proof";

pub const LOG_CONCLUSION: &'static str = "http://www.w3.org/2000/10/swap/log#conclusion";

pub const LOG_INCLUDES: &'static str = "http://www.w3.org/2000/10/swap/log#includes";

pub const LOG_IMPLIES: &'static str = "http://www.w3.org/2000/10/swap/log#implies";

/// Why a proof document was rejected. Each variant carries the IRI or the
/// message that identifies the failing part.
#[derive(Debug)]
pub enum ProofCheckError {
    DocumentNotFound(String),
    NotAProof(String),
    MissingConclusionIncludes(String),
    AssertionFailure(String),
    ImplicationFailure(String),
    InvalidIri(String),
    Other(String),
}

/// The mathematical value of a `ProofCheckError`.
pub enum ProofFailure {
    DocumentNotFound(Seq<char>),
    NotAProof(Seq<char>),
    MissingConclusionIncludes(Seq<char>),
    AssertionFailure(Seq<char>),
    ImplicationFailure(Seq<char>),
    InvalidIri(Seq<char>),
    Other(Seq<char>),
}

impl View for ProofCheckError {
    type V = ProofFailure;

    open spec fn view(&self) -> ProofFailure {
        match self {
            ProofCheckError::DocumentNotFound(m) => ProofFailure::DocumentNotFound(m@),
            ProofCheckError::NotAProof(m) => ProofFailure::NotAProof(m@),
            ProofCheckError::MissingConclusionIncludes(m) => ProofFailure::MissingConclusionIncludes(
                m@,
            ),
            ProofCheckError::AssertionFailure(m) => ProofFailure::AssertionFailure(m@),
            ProofCheckError::ImplicationFailure(m) => ProofFailure::ImplicationFailure(m@),
            ProofCheckError::InvalidIri(m) => ProofFailure::InvalidIri(m@),
            ProofCheckError::Other(m) => ProofFailure::Other(m@),
        }
    }
}

/// The text that describes a failure.
pub open spec fn failure_message(e: ProofFailure) -> Seq<char> {
    match e {
        ProofFailure::DocumentNotFound(m) => "Document <"@ + m + "> not found in the graph."@,
        ProofFailure::NotAProof(m) => "Document <"@ + m + "> is not recognized as a log:Proof."@,
        ProofFailure::MissingConclusionIncludes(m) => "Missing log:conclusion or log:includes in <"@
            + m + ">"@,
        ProofFailure::AssertionFailure(m) => "Failed assertion check: "@ + m,
        ProofFailure::ImplicationFailure(m) => "Failed implication check: "@ + m,
        ProofFailure::InvalidIri(m) => "Invalid IRI: "@ + m,
        ProofFailure::Other(m) => "Generic error: "@ + m,
    }
}

impl ProofCheckError {
    /// The text that describes this failure.
    pub fn message(&self) -> (r: String)
        ensures
            r@ == failure_message(self@),
    {
        proof {
            reveal_strlit("");
        }
        match self {
            ProofCheckError::DocumentNotFound(m) => framed(
                "Document <",
                m.as_str(),
                "> not found in the graph.",
            ),
            ProofCheckError::NotAProof(m) => framed(
                "Document <",
                m.as_str(),
                "> is not recognized as a log:Proof.",
            ),
            ProofCheckError::MissingConclusionIncludes(m) => framed(
                "Missing log:conclusion or log:includes in <",
                m.as_str(),
                ">",
            ),
            ProofCheckError::AssertionFailure(m) => framed("Failed assertion check: ", m.as_str(), ""),
            ProofCheckError::ImplicationFailure(m) => framed(
                "Failed implication check: ",
                m.as_str(),
                "",
            ),
            ProofCheckError::InvalidIri(m) => framed("Invalid IRI: ", m.as_str(), ""),
            ProofCheckError::Other(m) => framed("Generic error: ", m.as_str(), ""),
        }
    }
}

/// The mathematical value of a verdict.
pub open spec fn verdict_view(r: Result<(), ProofCheckError>) -> Result<(), ProofFailure> {
    match r {
        Ok(()) => Ok(()),
        Err(e) => Err(e@),
    }
}

pub open spec fn strings(v: Seq<String>) -> Seq<Seq<char>> {
    v.map_values(|s: String| s@)
}

pub open spec fn assertion_message(anchor: Seq<char>) -> Seq<char> {
    "Formula <"@ + anchor + "> not satisfied by current KB"@
}

pub open spec fn no_rule_message(anchor: Seq<char>) -> Seq<char> {
    "No log:implies found deriving <"@ + anchor + ">"@
}

fn framed(prefix: &str, iri: &str, suffix: &str) -> (r: String)
    ensures
        r@ == prefix@ + iri@ + suffix@,
{
    let mut m = String::from_str(prefix);
    m.append(iri);
    m.append(suffix);
    m
}

/// Whether the string is an absolute IRI, by the IRI grammar.
pub uninterp spec fn iri_is_valid(s: Seq<char>) -> bool;

/// Relies on oxrdf::NamedNode::new, which returns `Ok` exactly when the string
/// parses as an IRI; the answer depends on the string alone.
#[verifier::external_body]
pub(crate) fn is_valid_iri(s: &str) -> (r: bool)
    ensures
        r == iri_is_valid(s@),
{
    oxrdf::NamedNode::new(s).is_ok()
}

// ---------------------------------------------------------------------------
// Document structure

/// Whether `g` types the document `doc` as a proof.
pub open spec fn is_proof(g: Seq<TripleView>, doc: Seq<char>) -> bool {
    g.contains(
        TripleView {
            subject: TermView::Named(doc),
            predicate: TermView::Named(RDF_TYPE@),
            object: TermView::Named(LOG_PROOF@),
        },
    )
}

/// Whether a triple links the IRI `s` by the IRI `p` to an IRI.
pub open spec fn links_to_iri(s: Seq<char>, p: Seq<char>) -> spec_fn(TripleView) -> bool {
    |t: TripleView|
        t.subject == TermView::Named(s) && t.predicate == TermView::Named(p)
            && t.object is Named
}

/// The object IRIs of triples whose object is an IRI.
pub open spec fn object_iris(ts: Seq<TripleView>) -> Seq<Seq<char>> {
    ts.map_values(|t: TripleView| t.object->Named_0)
}

/// The IRIs that `s` is linked to by `p` in `g`, in the order of `g`. Objects
/// that are not IRIs are left out.
pub open spec fn named_objects(g: Seq<TripleView>, s: Seq<char>, p: Seq<char>) -> Seq<Seq<char>> {
    object_iris(g.filter(links_to_iri(s, p)))
}

/// The IRIs that `s` is linked to by `p` in `g`, and none when `p` is not a
/// valid IRI.
pub open spec fn declared_objects(g: Seq<TripleView>, s: Seq<char>, p: Seq<char>) -> Seq<
    Seq<char>,
> {
    if iri_is_valid(p) {
        named_objects(g, s, p)
    } else {
        Seq::empty()
    }
}

/// The objects that are IRIs of every triple `(subject, predicate_iri, object)`
/// of the graph, in graph order; none when `predicate_iri` is not a valid IRI.
pub fn get_named_objects_for_predicate(graph: &Graph, subject: &str, predicate_iri: &str) -> (r:
    Vec<String>)
    ensures
        !iri_is_valid(predicate_iri@) ==> r@.len() == 0,
        iri_is_valid(predicate_iri@) ==> strings(r@) == named_objects(
            graph@,
            subject@,
            predicate_iri@,
        ),
        strings(r@) == declared_objects(graph@, subject@, predicate_iri@),
{
    if !is_valid_iri(predicate_iri) {
        let none: Vec<String> = Vec::new();
        assert(strings(none@) =~= Seq::<Seq<char>>::empty());
        return none;
    }
    let mut out: Vec<String> = Vec::new();
    let mut i: usize = 0;
    while i < graph.len()
        invariant
            i <= graph@.len(),
            strings(out@) == object_iris(
                graph@.subrange(0, i as int).filter(links_to_iri(subject@, predicate_iri@)),
            ),
        decreases graph@.len() - i,
    {
        let t = graph.triple(i);
        let ghost before = out@;
        let ghost s = graph@.subrange(0, i + 1);
        let ghost prev = graph@.subrange(0, i as int).filter(links_to_iri(subject@, predicate_iri@));
        if t.subject.is_named(subject) && t.predicate.is_named(predicate_iri) {
            match &t.object {
                Term::NamedNode(nn) => {
                    out.push(nn.clone());
                    assert(strings(out@) =~= strings(before).push(nn@));
                    assert(object_iris(prev.push(t@)) =~= object_iris(prev).push(nn@));
                },
                _ => {},
            }
        }
        proof {
            assert(s.drop_last() =~= graph@.subrange(0, i as int));
            assert(s.last() == t@);
            reveal_with_fuel(Seq::filter, 1);
            assert(s.filter(links_to_iri(subject@, predicate_iri@)) == if links_to_iri(
                subject@,
                predicate_iri@,
            )(t@) {
                prev.push(t@)
            } else {
                prev
            });
        }
        i += 1;
    }
    assert(graph@.subrange(0, graph@.len() as int) =~= graph@);
    out
}

/// Succeeds when the graph types `doc_subject` as a proof.
pub fn ensure_is_log_proof(graph: &Graph, doc_subject: &str) -> (r: Result<(), ProofCheckError>)
    ensures
        verdict_view(r) == if is_proof(graph@, doc_subject@) {
            Ok(())
        } else {
            Err(ProofFailure::NotAProof(doc_subject@))
        },
{
    let ghost wanted = TripleView {
        subject: TermView::Named(doc_subject@),
        predicate: TermView::Named(RDF_TYPE@),
        object: TermView::Named(LOG_PROOF@),
    };
    let mut i: usize = 0;
    while i < graph.len()
        invariant
            i <= graph@.len(),
            wanted == (TripleView {
                subject: TermView::Named(doc_subject@),
                predicate: TermView::Named(RDF_TYPE@),
                object: TermView::Named(LOG_PROOF@),
            }),
            forall|j: int| 0 <= j < i ==> graph@[j] != wanted,
        decreases graph@.len() - i,
    {
        let t = graph.triple(i);
        if t.subject.is_named(doc_subject) && t.predicate.is_named(RDF_TYPE) && t.object.is_named(
            LOG_PROOF,
        ) {
            assert(graph@[i as int] == wanted);
            return Ok(());
        }
        i += 1;
    }
    Err(ProofCheckError::NotAProof(String::from_str(doc_subject)))
}

// ---------------------------------------------------------------------------
// Premises

/// The verdict on one premise: its formula must be satisfied by `kb`.
pub open spec fn premise_outcome(g: Seq<TripleView>, anchor: Seq<char>, kb: Seq<TripleView>) -> Result<
    (),
    ProofFailure,
> {
    if satisfied(formula_at(g, anchor), kb) {
        Ok(())
    } else {
        Err(ProofFailure::AssertionFailure(assertion_message(anchor)))
    }
}

/// The verdict on a list of premises: the first one that fails, if any.
pub open spec fn premises_outcome(
    g: Seq<TripleView>,
    anchors: Seq<Seq<char>>,
    kb: Seq<TripleView>,
) -> Result<(), ProofFailure>
    decreases anchors.len(),
{
    if anchors.len() == 0 {
        Ok(())
    } else if premise_outcome(g, anchors[0], kb) is Err {
        premise_outcome(g, anchors[0], kb)
    } else {
        premises_outcome(g, anchors.drop_first(), kb)
    }
}

/// Checks that the formula anchored at `formula_node` is satisfied by `kb`.
/// A formula without triples holds. The knowledge base is not changed.
pub fn check_assertions(graph: &Graph, formula_node: &str, kb: &Graph) -> (r: Result<
    (),
    ProofCheckError,
>)
    ensures
        verdict_view(r) == premise_outcome(graph@, formula_node@, kb@),
{
    let formula = extract_formula(graph, formula_node);
    if formula.triples.len() == 0 {
        return Ok(());
    }
    if formula.is_satisfied_by(kb) {
        Ok(())
    } else {
        Err(
            ProofCheckError::AssertionFailure(
                framed("Formula <", formula_node, "> not satisfied by current KB"),
            ),
        )
    }
}

// ---------------------------------------------------------------------------
// Conclusions

/// Whether `t` is an implication edge whose consequent is the IRI `c`.
pub open spec fn is_rule_for(t: TripleView, c: Seq<char>) -> bool {
    t.predicate == TermView::Named(LOG_IMPLIES@) && t.object == TermView::Named(c)
}

/// Whether some triple of `g` is an implication edge into `c`.
pub open spec fn has_rule(g: Seq<TripleView>, c: Seq<char>) -> bool {
    exists|i: int| 0 <= i < g.len() && is_rule_for(#[trigger] g[i], c)
}

/// `kb` with the triples of `f` added in order, each one only if it is new.
pub open spec fn with_triples(kb: Seq<TripleView>, f: Seq<TripleView>) -> Seq<TripleView>
    decreases f.len(),
{
    if f.len() == 0 {
        kb
    } else {
        with_triple(with_triples(kb, f.drop_last()), f.last())
    }
}

/// The effect of the edge `t` of `g` on `kb` for the conclusion `c`: when `t`
/// is an implication into `c` from an IRI whose formula `kb` satisfies, and the
/// conclusion's formula is not yet satisfied, that formula's triples are added.
/// Edges from blank nodes or literals have no effect.
pub open spec fn apply_rule(
    g: Seq<TripleView>,
    c: Seq<char>,
    kb: Seq<TripleView>,
    t: TripleView,
) -> Seq<TripleView> {
    if is_rule_for(t, c) && t.subject is Named && satisfied(formula_at(g, t.subject->Named_0), kb)
        && !satisfied(formula_at(g, c), kb) {
        with_triples(kb, formula_at(g, c))
    } else {
        kb
    }
}

/// The knowledge base after the first `n` triples of `g` were considered as
/// edges into `c`.
pub open spec fn resolve_upto(
    g: Seq<TripleView>,
    c: Seq<char>,
    kb: Seq<TripleView>,
    n: nat,
) -> Seq<TripleView>
    decreases n,
{
    if n == 0 {
        kb
    } else {
        apply_rule(g, c, resolve_upto(g, c, kb, (n - 1) as nat), g[n - 1])
    }
}

/// The knowledge base after every triple of `g` was considered as an edge into `c`.
pub open spec fn resolve(g: Seq<TripleView>, c: Seq<char>, kb: Seq<TripleView>) -> Seq<
    TripleView,
> {
    resolve_upto(g, c, kb, g.len())
}

/// Whether `t` is an implication edge into `c` from an IRI whose formula `kb`
/// satisfies.
pub open spec fn antecedent_holds(
    g: Seq<TripleView>,
    c: Seq<char>,
    kb: Seq<TripleView>,
    t: TripleView,
) -> bool {
    is_rule_for(t, c) && t.subject is Named && satisfied(formula_at(g, t.subject->Named_0), kb)
}

/// What resolving the conclusion `c` does to `kb`: when some implication into
/// `c` has an antecedent that `kb` satisfies, and `kb` does not satisfy the
/// conclusion yet, the conclusion's triples are added; otherwise nothing changes.
pub open spec fn derivation(g: Seq<TripleView>, c: Seq<char>, kb: Seq<TripleView>) -> Seq<
    TripleView,
> {
    if (exists|i: int| 0 <= i < g.len() && antecedent_holds(g, c, kb, #[trigger] g[i]))
        && !satisfied(formula_at(g, c), kb) {
        with_triples(kb, formula_at(g, c))
    } else {
        kb
    }
}

proof fn lemma_resolve_upto_direct(g: Seq<TripleView>, c: Seq<char>, kb: Seq<TripleView>, n: nat)
    requires
        n <= g.len(),
    ensures
        resolve_upto(g, c, kb, n) == if (exists|i: int|
            0 <= i < n && antecedent_holds(g, c, kb, #[trigger] g[i])) && !satisfied(
            formula_at(g, c),
            kb,
        ) {
            with_triples(kb, formula_at(g, c))
        } else {
            kb
        },
    decreases n,
{
    if n > 0 {
        lemma_resolve_upto_direct(g, c, kb, (n - 1) as nat);
        let f = formula_at(g, c);
        let p = resolve_upto(g, c, kb, (n - 1) as nat);
        lemma_with_triples(kb, f);
        lemma_contained_satisfied(f, with_triples(kb, f));
        if antecedent_holds(g, c, kb, g[n - 1]) {
            assert(exists|i: int| 0 <= i < n && antecedent_holds(g, c, kb, #[trigger] g[i]));
        }
        if exists|i: int| 0 <= i < n && antecedent_holds(g, c, kb, #[trigger] g[i]) {
            let i = choose|i: int| 0 <= i < n && antecedent_holds(g, c, kb, #[trigger] g[i]);
            if i < n - 1 {
                assert(exists|j: int| 0 <= j < n - 1 && antecedent_holds(g, c, kb, #[trigger] g[j]));
            }
        }
    }
}

/// Resolving a conclusion is `derivation`: all implication edges are judged
/// against the knowledge base as it was, and the conclusion is added at most once.
pub proof fn lemma_resolve_is_derivation(g: Seq<TripleView>, c: Seq<char>, kb: Seq<TripleView>)
    ensures
        resolve(g, c, kb) == derivation(g, c, kb),
{
    lemma_resolve_upto_direct(g, c, kb, g.len());
}

/// The verdict on one conclusion: some rule must lead to it.
pub open spec fn implication_outcome(g: Seq<TripleView>, c: Seq<char>) -> Result<(), ProofFailure> {
    if has_rule(g, c) {
        Ok(())
    } else {
        Err(ProofFailure::ImplicationFailure(no_rule_message(c)))
    }
}

/// The triples of `kb` and of `f` are in `with_triples(kb, f)`, and nothing else.
pub proof fn lemma_with_triples(kb: Seq<TripleView>, f: Seq<TripleView>)
    ensures
        forall|t: TripleView| kb.contains(t) ==> with_triples(kb, f).contains(t),
        forall|i: int| 0 <= i < f.len() ==> with_triples(kb, f).contains(#[trigger] f[i]),
        kb.no_duplicates() ==> with_triples(kb, f).no_duplicates(),
    decreases f.len(),
{
    if f.len() > 0 {
        let p = f.drop_last();
        lemma_with_triples(kb, p);
        let w = with_triples(kb, p);
        lemma_with_triple(w, f.last());
        assert forall|i: int| 0 <= i < f.len() implies with_triples(kb, f).contains(
            #[trigger] f[i],
        ) by {
            if i < f.len() - 1 {
                assert(p[i] == f[i]);
            }
        }
    }
}

/// One step of the resolver keeps every triple, and keeps the triples distinct.
proof fn lemma_apply_rule_grows(g: Seq<TripleView>, c: Seq<char>, kb: Seq<TripleView>, t: TripleView)
    ensures
        forall|u: TripleView| kb.contains(u) ==> apply_rule(g, c, kb, t).contains(u),
        kb.no_duplicates() ==> apply_rule(g, c, kb, t).no_duplicates(),
{
    lemma_with_triples(kb, formula_at(g, c));
}

/// Resolving a conclusion never removes a triple from the knowledge base.
pub proof fn lemma_resolve_upto_grows(g: Seq<TripleView>, c: Seq<char>, kb: Seq<TripleView>, n: nat)
    ensures
        forall|u: TripleView| kb.contains(u) ==> resolve_upto(g, c, kb, n).contains(u),
        kb.no_duplicates() ==> resolve_upto(g, c, kb, n).no_duplicates(),
    decreases n,
{
    if n > 0 {
        lemma_resolve_upto_grows(g, c, kb, (n - 1) as nat);
        lemma_apply_rule_grows(g, c, resolve_upto(g, c, kb, (n - 1) as nat), g[n - 1]);
    }
}

/// Checks that the conclusion anchored at `conclusion_node` is derivable: some
/// triple of the whole graph must be an implication edge into it. For each such
/// edge from an IRI whose formula `kb` satisfies, the conclusion's triples are
/// added to `kb` when `kb` does not satisfy it yet.
pub fn check_implications(graph: &Graph, conclusion_node: &str, kb: &mut Graph) -> (r: Result<
    (),
    ProofCheckError,
>)
    ensures
        final(kb)@ == resolve(graph@, conclusion_node@, old(kb)@),
        final(kb)@ == derivation(graph@, conclusion_node@, old(kb)@),
        forall|t: TripleView| old(kb)@.contains(t) ==> final(kb)@.contains(t),
        old(kb).wf() ==> final(kb).wf(),
        verdict_view(r) == implication_outcome(graph@, conclusion_node@),
{
    let conclusion_formula = extract_formula(graph, conclusion_node);
    let ghost c = conclusion_node@;
    let ghost g = graph@;
    let mut found_any_impl = false;
    let mut i: usize = 0;
    while i < graph.len()
        invariant
            i <= g.len(),
            g == graph@,
            c == conclusion_node@,
            conclusion_formula@ == formula_at(g, c),
            kb@ == resolve_upto(g, c, old(kb)@, i as nat),
            found_any_impl == exists|j: int| 0 <= j < i && is_rule_for(#[trigger] g[j], c),
        decreases g.len() - i,
    {
        let t = graph.triple(i);
        let ghost kb_before = kb@;
        if t.predicate.is_named(LOG_IMPLIES) && t.object.is_named(conclusion_node) {
            found_any_impl = true;
            match &t.subject {
                Term::NamedNode(nn) => {
                    let antecedent = extract_formula(graph, nn.as_str());
                    if antecedent.is_satisfied_by(kb) {
                        if !conclusion_formula.is_satisfied_by(kb) {
                            let mut k: usize = 0;
                            while k < conclusion_formula.triples.len()
                                invariant
                                    k <= conclusion_formula@.len(),
                                    kb@ == with_triples(
                                        kb_before,
                                        conclusion_formula@.subrange(0, k as int),
                                    ),
                                decreases conclusion_formula@.len() - k,
                            {
                                let ghost done = conclusion_formula@.subrange(0, k as int);
                                kb.insert(conclusion_formula.triples[k].duplicate());
                                assert(conclusion_formula@.subrange(0, k + 1).drop_last() =~= done);
                                k += 1;
                            }
                            assert(conclusion_formula@.subrange(
                                0,
                                conclusion_formula@.len() as int,
                            ) =~= conclusion_formula@);
                            proof {
                                lemma_with_triples(kb_before, conclusion_formula@);
                                lemma_contained_satisfied(conclusion_formula@, kb@);
                            }
                            if !conclusion_formula.is_satisfied_by(kb) {
                                return Err(
                                    ProofCheckError::ImplicationFailure(
                                        framed(
                                            "Conclusion <",
                                            conclusion_node,
                                            "> not derivable even after adding.",
                                        ),
                                    ),
                                );
                            }
                        }
                    }
                },
                _ => {},
            }
        }
        i += 1;
    }
    proof {
        lemma_resolve_upto_grows(g, c, old(kb)@, g.len());
        lemma_resolve_is_derivation(g, c, old(kb)@);
    }
    if !found_any_impl {
        return Err(
            ProofCheckError::ImplicationFailure(
                framed("No log:implies found deriving <", conclusion_node, ">"),
            ),
        );
    }
    Ok(())
}

} // verus!
